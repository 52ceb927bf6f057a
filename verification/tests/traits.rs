use rust_primer::enums::IpAddr;
use rust_primer::enums::IpAddrKind;
use rust_primer::enums::IpAddrStruct;
use rust_primer::enums::Message;
use rust_primer::generics_traits::breaking_news;
use rust_primer::generics_traits::largest;
use rust_primer::generics_traits::notify;
use rust_primer::generics_traits::notify_2018;
use rust_primer::generics_traits::read_more_from;
use rust_primer::generics_traits::ret_trait;
use rust_primer::generics_traits::DefaultSummarizable;
use rust_primer::generics_traits::DoublePoint;
use rust_primer::generics_traits::FooBar;
use rust_primer::generics_traits::MultiFunctionalTrait;
use rust_primer::generics_traits::NewsArticle;
use rust_primer::generics_traits::Point;
use rust_primer::generics_traits::Summarizable;
use rust_primer::generics_traits::SummarizableDefault;
use rust_primer::generics_traits::Tweet;
use rust_primer::oops::Button;
use rust_primer::oops::Draw;
use rust_primer::oops::Screen;
use std::cell::Cell;
use std::rc::Rc;

fn tweet() -> Tweet {
    Tweet {
        username: String::from("horse_ebooks"),
        content: String::from("of course, as you probably already know, people"),
        reply: false,
        retweet: false,
    }
}

#[test]
fn points_mix_up() {
    let integer = Point { x: 5, y: 10 };
    assert_eq!(*integer.x(), 5);
    assert_eq!(integer.y, 10);
    let p1 = DoublePoint { x: 5, y: 10.4 };
    let p2 = DoublePoint { x: "Hello", y: 'c' };
    let p3 = p1.mixup(p2);
    assert_eq!(p3.x, 5);
    assert_eq!(p3.y, 'c');
}

#[test]
fn largest_is_the_greatest_element() {
    assert_eq!(largest(&[34, 50, 25, 100, 65]), 100);
    assert_eq!(largest(&[102, 34, 6000, 89, 54, 2, 43, 8]), 6000);
    assert_eq!(largest(&[7]), 7);
    assert_eq!(largest(&[-3, -1, -2]), -1);
    assert_eq!(largest(&[2, 2, 2]), 2);
    assert_eq!(largest(&['y', 'm', 'a', 'q']), 'y');
    assert_eq!(largest(&[1.5, 0.5, 2.5]), 2.5);
}

#[test]
fn largest_stays_where_nothing_is_greater() {
    let nan = f64::NAN;
    assert_eq!(largest(&[1.0, nan, 0.5]), 1.0);
    assert!(largest(&[nan, 1.0, 0.5]).is_nan());
}

#[test]
fn a_tweet_has_three_summaries() {
    let tweet = tweet();
    assert_eq!(tweet.summary(), "This is a tweet");
    assert_eq!(<Tweet as DefaultSummarizable>::summary(&tweet), "(Read more...)");
    assert_eq!(
        <Tweet as Summarizable>::summary(&tweet),
        "horse_ebooks: of course, as you probably already know, people"
    );
}

#[test]
fn an_article_names_its_author_and_place() {
    let article = NewsArticle {
        headline: String::from("Penguins win the Stanley Cup Championship!"),
        location: String::from("Pittsburgh, PA, USA"),
        author: String::from("Iceburgh"),
        content: String::from("The Pittsburgh Penguins once again are the best hockey team in the NHL."),
    };
    assert_eq!(
        article.summary(),
        "Penguins win the Stanley Cup Championship!, by Iceburgh (Pittsburgh, PA, USA)"
    );
    assert_eq!(
        notify_2018(article),
        "Breaking news! Penguins win the Stanley Cup Championship!, by Iceburgh (Pittsburgh, PA, USA)"
    );
}

#[test]
fn breaking_news_goes_before_the_summary() {
    assert_eq!(
        notify(tweet()),
        "Breaking news! horse_ebooks: of course, as you probably already know, people"
    );
    assert_eq!(breaking_news(""), "Breaking news! ");
    assert_eq!(breaking_news("rain"), "Breaking news! rain");
}

struct Column {
    author: String,
}

impl SummarizableDefault for Column {
    fn author_summary(&self) -> String {
        self.author.clone()
    }
}

#[test]
fn a_default_summary_builds_on_the_author() {
    let column = Column { author: String::from("@abhay") };
    assert_eq!(column.summary(), "(Read more from @abhay...)");
    assert_eq!(read_more_from("nobody"), "(Read more from nobody...)");
    assert_eq!(read_more_from(""), "(Read more from ...)");
}

#[test]
fn foo_bar_hands_out_its_message_and_its_string() {
    let foo_bar = FooBar::new(String::from("inside"));
    assert_eq!(foo_bar.foo(), "Some message");
    assert_eq!(foo_bar.bar(), "inside");
}

#[test]
fn either_implementor_comes_in_a_box() {
    let _foo = ret_trait(true);
    let _bar = ret_trait(false);
}

struct Counted {
    drawn: Rc<Cell<u32>>,
}

impl Draw for Counted {
    fn draw(&self) {
        self.drawn.set(self.drawn.get() + 1);
    }
}

#[test]
fn a_screen_draws_each_component_once() {
    let drawn = Rc::new(Cell::new(0));
    let screen = Screen {
        components: vec![
            Box::new(Counted { drawn: Rc::clone(&drawn) }),
            Box::new(Button { width: 50, height: 10, label: String::from("OK") }),
            Box::new(Counted { drawn: Rc::clone(&drawn) }),
        ],
    };
    screen.run();
    assert_eq!(drawn.get(), 2);
    screen.run();
    assert_eq!(drawn.get(), 4);
    Screen { components: vec![] }.run();
}

#[test]
fn only_a_written_message_leaves_a_line() {
    let m = Message::Write(String::from("Hello, World!"));
    assert_eq!(m.call(), Some(String::from("Written message: Hello, World!")));
    assert_eq!(Message::Write(String::new()).call(), Some(String::from("Written message: ")));
    assert_eq!(Message::Quit.call(), None);
    assert_eq!(Message::Move { x: 1, y: 2 }.call(), None);
    assert_eq!(Message::ChangeColor(1, 2, 3).call(), None);
}

#[test]
fn addresses_carry_their_data() {
    let home = IpAddrStruct { kind: IpAddrKind::V4, address: String::from("127.0.0.1") };
    assert_eq!(home.address, "127.0.0.1");
    assert!(matches!(home.kind, IpAddrKind::V4));
    let loopback = IpAddr::V6(String::from("::1"));
    assert!(matches!(loopback, IpAddr::V6(ref text) if text == "::1"));
    assert!(matches!(IpAddr::V4(127, 0, 0, 1), IpAddr::V4(127, 0, 0, 1)));
    assert!(matches!(IpAddrKind::V6, IpAddrKind::V6));
}
