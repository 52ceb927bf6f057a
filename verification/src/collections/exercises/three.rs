//! A company's departments and the people in them: add someone to a
//! department, list a department, list everyone in alphabetical order.

use crate::text::to_chars;
use crate::text::views;
use vstd::multiset::Multiset;
use vstd::prelude::*;
use vstd::relations::sorted_by;

verus! {

broadcast use {
    vstd::string::group_string_axioms,
    vstd::seq_lib::group_to_multiset_ensures,
    vstd::multiset::group_multiset_axioms,
};

/// One department: its name and its people, in the order they joined.
struct Department {
    name: String,
    employees: Vec<String>,
}

/// A company: its departments, no two of the same name.
pub struct Company {
    departments: Vec<Department>,
}

/// The people of each department, by the department's name.
spec fn roster(departments: Seq<Department>) -> Map<Seq<char>, Seq<Seq<char>>>
    decreases departments.len(),
{
    if departments.len() == 0 {
        Map::empty()
    } else {
        roster(departments.drop_last()).insert(
            departments.last().name@,
            views(departments.last().employees@),
        )
    }
}

/// The people of all departments, one department after the other.
spec fn staff(departments: Seq<Department>) -> Seq<Seq<char>>
    decreases departments.len(),
{
    if departments.len() == 0 {
        Seq::empty()
    } else {
        staff(departments.drop_last()) + views(departments.last().employees@)
    }
}

/// Whether no two of the departments have the same name.
spec fn distinct(departments: Seq<Department>) -> bool {
    forall|i: int, j: int|
        0 <= i < j < departments.len() ==> departments[i].name@ != departments[j].name@
}

/// Alphabetical order: `a` comes no later than `b` when it is a prefix of `b`
/// or has the smaller character at the first place where the two differ.
pub open spec fn alphabetical(a: Seq<char>, b: Seq<char>) -> bool
    decreases a.len(),
{
    if a.len() == 0 {
        true
    } else if b.len() == 0 {
        false
    } else if a[0] != b[0] {
        a[0] < b[0]
    } else {
        alphabetical(a.skip(1), b.skip(1))
    }
}

/// The alphabetical order as a relation.
pub open spec fn by_alphabet() -> spec_fn(Seq<char>, Seq<char>) -> bool {
    |a: Seq<char>, b: Seq<char>| alphabetical(a, b)
}

/// Of two strings, one comes no later than the other.
pub proof fn lemma_alphabetical_total(a: Seq<char>, b: Seq<char>)
    ensures
        alphabetical(a, b) || alphabetical(b, a),
    decreases a.len(),
{
    if a.len() > 0 && b.len() > 0 && a[0] == b[0] {
        lemma_alphabetical_total(a.skip(1), b.skip(1));
    }
}

/// What comes no later than something that comes no later than `c` comes no
/// later than `c`.
pub proof fn lemma_alphabetical_transitive(a: Seq<char>, b: Seq<char>, c: Seq<char>)
    requires
        alphabetical(a, b),
        alphabetical(b, c),
    ensures
        alphabetical(a, c),
    decreases a.len(),
{
    if a.len() > 0 && b.len() > 0 && c.len() > 0 && a[0] == b[0] && b[0] == c[0] {
        lemma_alphabetical_transitive(a.skip(1), b.skip(1), c.skip(1));
    }
}

/// Two strings that each come no later than the other are the same string.
pub proof fn lemma_alphabetical_antisymmetric(a: Seq<char>, b: Seq<char>)
    requires
        alphabetical(a, b),
        alphabetical(b, a),
    ensures
        a == b,
    decreases a.len(),
{
    if a.len() > 0 && b.len() > 0 {
        lemma_alphabetical_antisymmetric(a.skip(1), b.skip(1));
        assert(a == seq![a[0]] + a.skip(1));
        assert(b == seq![b[0]] + b.skip(1));
    } else {
        assert(a =~= b);
    }
}

/// Alphabetical order is a total order, so a list of names has one sorted
/// arrangement only.
pub proof fn lemma_alphabet_is_total_order()
    ensures
        vstd::relations::total_ordering(by_alphabet()),
{
    assert forall|a: Seq<char>| #[trigger] by_alphabet()(a, a) by {
        lemma_alphabetical_total(a, a);
    }
    assert forall|a: Seq<char>, b: Seq<char>|
        #[trigger] by_alphabet()(a, b) && #[trigger] by_alphabet()(b, a) implies a == b by {
        lemma_alphabetical_antisymmetric(a, b);
    }
    assert forall|a: Seq<char>, b: Seq<char>, c: Seq<char>|
        #[trigger] by_alphabet()(a, b) && #[trigger] by_alphabet()(b, c) implies by_alphabet()(
        a,
        c,
    ) by {
        lemma_alphabetical_transitive(a, b, c);
    }
    assert forall|a: Seq<char>, b: Seq<char>|
        #[trigger] by_alphabet()(a, b) || #[trigger] by_alphabet()(b, a) by {
        lemma_alphabetical_total(a, b);
    }
}

/// Two lists in alphabetical order that hold the same names equally often
/// are the same list.
pub proof fn lemma_sorted_names_unique(a: Seq<Seq<char>>, b: Seq<Seq<char>>)
    requires
        sorted_by(a, by_alphabet()),
        sorted_by(b, by_alphabet()),
        a.to_multiset() == b.to_multiset(),
    ensures
        a == b,
{
    lemma_alphabet_is_total_order();
    vstd::seq_lib::lemma_sorted_unique(a, b, by_alphabet());
}

/// Tells whether `a` comes no later than `b` in alphabetical order.
pub fn comes_first(a: &str, b: &str) -> (first: bool)
    ensures
        first == alphabetical(a@, b@),
{
    let a_chars = to_chars(a);
    let b_chars = to_chars(b);
    let mut i: usize = 0;
    assert(a_chars@.skip(0) == a_chars@ && b_chars@.skip(0) == b_chars@);
    while i < a_chars.len() && i < b_chars.len() && a_chars[i] == b_chars[i]
        invariant
            i <= a_chars.len(),
            i <= b_chars.len(),
            alphabetical(a_chars@, b_chars@) == alphabetical(
                a_chars@.skip(i as int),
                b_chars@.skip(i as int),
            ),
        decreases a_chars.len() - i,
    {
        assert(a_chars@.skip(i as int).skip(1) == a_chars@.skip(i + 1));
        assert(b_chars@.skip(i as int).skip(1) == b_chars@.skip(i + 1));
        i += 1;
    }
    if i == a_chars.len() {
        true
    } else if i == b_chars.len() {
        false
    } else {
        a_chars[i] < b_chars[i]
    }
}

/// Puts `name` into `sorted` where it belongs.
pub fn insert_sorted(sorted: &mut Vec<String>, name: String)
    requires
        sorted_by(views(old(sorted)@), by_alphabet()),
    ensures
        sorted_by(views(final(sorted)@), by_alphabet()),
        views(final(sorted)@).to_multiset() == views(old(sorted)@).to_multiset().insert(name@),
{
    let mut at: usize = 0;
    while at < sorted.len() && comes_first(sorted[at].as_str(), name.as_str())
        invariant
            at <= sorted.len(),
            forall|k: int| 0 <= k < at ==> alphabetical(#[trigger] sorted@[k]@, name@),
        decreases sorted.len() - at,
    {
        at += 1;
    }
    let ghost before = views(sorted@);
    sorted.insert(at, name);
    proof {
        let after = views(sorted@);
        assert(after == before.insert(at as int, name@));
        vstd::seq_lib::to_multiset_insert(before, at as int, name@);
        assert forall|i: int, j: int| 0 <= i < j < after.len() implies #[trigger] by_alphabet()(
            after[i],
            after[j],
        ) by {
            if j < at {
                assert(by_alphabet()(before[i], before[j]));
            } else if j == at {
                assert(alphabetical(old(sorted)@[i]@, name@));
            } else if i == at {
                lemma_alphabetical_total(before[at as int], name@);
                if j - 1 > at {
                    assert(by_alphabet()(before[at as int], before[j - 1]));
                    lemma_alphabetical_transitive(name@, before[at as int], before[j - 1]);
                }
            } else if i < at {
                assert(by_alphabet()(before[i], before[j - 1]));
            } else {
                assert(by_alphabet()(before[i - 1], before[j - 1]));
            }
        }
    }
}

/// Puts `names` into alphabetical order.
pub fn sort_names(names: Vec<String>) -> (sorted: Vec<String>)
    ensures
        sorted_by(views(sorted@), by_alphabet()),
        views(sorted@).to_multiset() == views(names@).to_multiset(),
{
    let mut sorted: Vec<String> = Vec::new();
    assert(views(names@).take(0).to_multiset() =~= views(sorted@).to_multiset());
    for name in it: names
        invariant
            it.seq() == names@,
            sorted_by(views(sorted@), by_alphabet()),
            views(sorted@).to_multiset() == views(names@).take(it.index() as int).to_multiset(),
    {
        proof {
            let upto = views(names@).take(it.index() + 1);
            assert(upto == views(names@).take(it.index() as int).push(name@));
            vstd::seq_lib::to_multiset_build(views(names@).take(it.index() as int), name@);
        }
        insert_sorted(&mut sorted, name);
    }
    assert(views(names@).take(names@.len() as int) == views(names@));
    sorted
}

impl View for Company {
    type V = Map<Seq<char>, Seq<Seq<char>>>;

    /// The people of each department, by the department's name.
    closed spec fn view(&self) -> Map<Seq<char>, Seq<Seq<char>>> {
        roster(self.departments@)
    }
}

impl Company {
    /// Whether no two departments have the same name.
    pub closed spec fn wf(&self) -> bool {
        distinct(self.departments@)
    }

    /// Everyone in the company, each as often as they were added.
    pub closed spec fn everyone(&self) -> Multiset<Seq<char>> {
        staff(self.departments@).to_multiset()
    }

    /// Someone is in the company exactly if some department has them.
    pub proof fn lemma_everyone_has_a_department(&self, name: Seq<char>)
        requires
            self.wf(),
        ensures
            self.everyone().count(name) > 0 <==> exists|dept: Seq<char>|
                self@.contains_key(dept) && (#[trigger] self@[dept]).contains(name),
    {
        let departments = self.departments@;
        lemma_staff(departments, name);
        lemma_roster(departments);
        staff(departments).to_multiset_ensures();
        if staff(departments).contains(name) {
            let i = choose|i: int|
                0 <= i < departments.len() && views(
                    (#[trigger] departments[i]).employees@,
                ).contains(name);
            let dept = departments[i].name@;
            assert(self@.contains_key(dept) && self@[dept].contains(name));
        }
        if exists|dept: Seq<char>|
            self@.contains_key(dept) && (#[trigger] self@[dept]).contains(name) {
            let dept = choose|dept: Seq<char>|
                self@.contains_key(dept) && (#[trigger] self@[dept]).contains(name);
            let i = choose|i: int| 0 <= i < departments.len() && #[trigger] departments[i].name@ == dept;
            assert(views(departments[i].employees@).contains(name));
        }
    }

    /// A company without departments.
    pub fn new() -> (company: Company)
        ensures
            company.wf(),
            company@ == Map::<Seq<char>, Seq<Seq<char>>>::empty(),
            company.everyone() == Multiset::<Seq<char>>::empty(),
    {
        let company = Company { departments: Vec::new() };
        assert(staff(company.departments@).to_multiset() =~= Multiset::<Seq<char>>::empty());
        company
    }

    /// Where the department called `dept` stands, if there is one.
    fn find(&self, dept: &String) -> (at: Option<usize>)
        ensures
            match at {
                Some(i) => i < self.departments@.len() && self.departments@[i as int].name@
                    == dept@,
                None => forall|i: int|
                    0 <= i < self.departments@.len() ==> (#[trigger] self.departments@[i]).name@
                        != dept@,
            },
    {
        let mut i: usize = 0;
        while i < self.departments.len()
            invariant
                i <= self.departments.len(),
                forall|k: int| 0 <= k < i ==> (#[trigger] self.departments@[k]).name@ != dept@,
            decreases self.departments.len() - i,
        {
            if self.departments[i].name == *dept {
                return Some(i);
            }
            i += 1;
        }
        None
    }

    /// Adds `name` to the department `dept`, which is opened if the company
    /// does not have it yet.
    pub fn add_to_dept(&mut self, dept: &str, name: &str)
        requires
            old(self).wf(),
        ensures
            final(self).wf(),
            final(self)@ == old(self)@.insert(
                dept@,
                (if old(self)@.contains_key(dept@) {
                    old(self)@[dept@]
                } else {
                    Seq::empty()
                }).push(name@),
            ),
            final(self).everyone() == old(self).everyone().insert(name@),
    {
        let key = dept.to_string();
        let newcomer = name.to_string();
        let ghost before = self.departments@;
        proof {
            lemma_roster(before);
        }
        match self.find(&key) {
            Some(i) => {
                let ghost joined = views(before[i as int].employees@).push(name@);
                self.departments[i].employees.push(newcomer);
                proof {
                    let after = self.departments@;
                    assert(after[i as int].name@ == dept@);
                    assert(views(after[i as int].employees@) == joined);
                    assert forall|k: int| 0 <= k < after.len() && k != i implies after[k]
                        == before[k] by {}
                    lemma_roster(after);
                    assert(roster(after) =~= roster(before).insert(dept@, joined));
                    lemma_staff_grows(before, after, i as int, name@);
                }
            },
            None => {
                let mut employees: Vec<String> = Vec::new();
                employees.push(newcomer);
                self.departments.push(Department { name: key, employees });
                proof {
                    let after = self.departments@;
                    assert(after.drop_last() == before);
                    assert(views(after.last().employees@) == Seq::<Seq<char>>::empty().push(name@));
                    assert(!roster(before).contains_key(dept@));
                    assert(staff(after) == staff(before).push(name@));
                    vstd::seq_lib::to_multiset_build(staff(before), name@);
                }
            },
        }
    }

    /// The people of the department `dept`, if the company has it.
    pub fn get_all_from_dept(&self, dept: &str) -> (people: Option<&Vec<String>>)
        requires
            self.wf(),
        ensures
            match people {
                Some(employees) => self@.contains_key(dept@) && views(employees@) == self@[dept@],
                None => !self@.contains_key(dept@),
            },
    {
        let key = dept.to_string();
        proof {
            lemma_roster(self.departments@);
        }
        match self.find(&key) {
            Some(i) => Some(&self.departments[i].employees),
            None => None,
        }
    }

    /// Everyone in the company, in alphabetical order.
    pub fn get_all_sorted(&self) -> (all: Vec<String>)
        ensures
            sorted_by(views(all@), by_alphabet()),
            views(all@).to_multiset() == self.everyone(),
    {
        let mut all: Vec<String> = Vec::new();
        let mut i: usize = 0;
        assert(views(all@) == staff(self.departments@.take(0)));
        while i < self.departments.len()
            invariant
                i <= self.departments.len(),
                views(all@) == staff(self.departments@.take(i as int)),
            decreases self.departments.len() - i,
        {
            let ghost before = all@;
            all.extend_from_slice(self.departments[i].employees.as_slice());
            proof {
                let upto = self.departments@.take(i + 1);
                assert(upto.drop_last() == self.departments@.take(i as int));
                assert(views(all@) == views(before) + views(self.departments@[i as int].employees@));
            }
            i += 1;
        }
        assert(self.departments@.take(self.departments@.len() as int) == self.departments@);
        sort_names(all)
    }
}

/// Someone is on the staff exactly if they are in one of the departments.
proof fn lemma_staff(departments: Seq<Department>, name: Seq<char>)
    ensures
        staff(departments).contains(name) <==> exists|i: int|
            0 <= i < departments.len() && views(
                (#[trigger] departments[i]).employees@,
            ).contains(name),
    decreases departments.len(),
{
    if departments.len() > 0 {
        let front = departments.drop_last();
        let last = views(departments.last().employees@);
        lemma_staff(front, name);
        if staff(departments).contains(name) {
            let k = choose|k: int| 0 <= k < staff(departments).len() && staff(departments)[k] == name;
            if k < staff(front).len() {
                assert(staff(front)[k] == name);
                let i = choose|i: int|
                    0 <= i < front.len() && views((#[trigger] front[i]).employees@).contains(name);
                assert(departments[i] == front[i]);
            } else {
                assert(last[k - staff(front).len()] == name);
                assert(views(departments[departments.len() - 1].employees@).contains(name));
            }
        }
        if exists|i: int|
            0 <= i < departments.len() && views((#[trigger] departments[i]).employees@).contains(
                name,
            ) {
            let i = choose|i: int|
                0 <= i < departments.len() && views(
                    (#[trigger] departments[i]).employees@,
                ).contains(name);
            if i < front.len() {
                assert(front[i] == departments[i]);
                assert(staff(front).contains(name));
                let k = choose|k: int| 0 <= k < staff(front).len() && staff(front)[k] == name;
                assert(staff(departments)[k] == name);
            } else {
                let k = choose|k: int| 0 <= k < last.len() && last[k] == name;
                assert(staff(departments)[staff(front).len() + k] == name);
            }
        }
    }
}

/// With distinct names, the roster holds exactly the departments, each with
/// its own people.
proof fn lemma_roster(departments: Seq<Department>)
    requires
        distinct(departments),
    ensures
        forall|i: int|
            0 <= i < departments.len() ==> roster(departments).contains_key(
                #[trigger] departments[i].name@,
            ) && roster(departments)[departments[i].name@] == views(departments[i].employees@),
        forall|name: Seq<char>| #[trigger]
            roster(departments).contains_key(name) ==> exists|i: int|
                0 <= i < departments.len() && #[trigger] departments[i].name@ == name,
    decreases departments.len(),
{
    if departments.len() > 0 {
        let front = departments.drop_last();
        lemma_roster(front);
        assert forall|i: int| 0 <= i < departments.len() implies roster(departments).contains_key(
            #[trigger] departments[i].name@,
        ) && roster(departments)[departments[i].name@] == views(departments[i].employees@) by {
            if i < departments.len() - 1 {
                assert(front[i] == departments[i]);
            }
        }
        assert forall|name: Seq<char>| #[trigger]
            roster(departments).contains_key(name) implies exists|i: int|
            0 <= i < departments.len() && #[trigger] departments[i].name@ == name by {
            if name == departments.last().name@ {
                assert(departments[departments.len() - 1].name@ == name);
            } else {
                assert(roster(front).contains_key(name));
                let i = choose|i: int| 0 <= i < front.len() && #[trigger] front[i].name@ == name;
                assert(departments[i].name@ == name);
            }
        }
    }
}

/// When one department gains `name` as its last member and the others stay
/// as they are, the company's people gain `name` once.
proof fn lemma_staff_grows(
    before: Seq<Department>,
    after: Seq<Department>,
    at: int,
    name: Seq<char>,
)
    requires
        0 <= at < before.len(),
        after.len() == before.len(),
        forall|k: int| 0 <= k < before.len() && k != at ==> after[k] == before[k],
        views(after[at].employees@) == views(before[at].employees@).push(name),
    ensures
        staff(after).to_multiset() == staff(before).to_multiset().insert(name),
    decreases before.len(),
{
    broadcast use vstd::multiset::group_multiset_axioms;

    let old_last = views(before.last().employees@);
    let new_last = views(after.last().employees@);
    if at == before.len() - 1 {
        assert(after.drop_last() == before.drop_last());
        assert(staff(after) == staff(before).push(name));
        vstd::seq_lib::to_multiset_build(staff(before), name);
    } else {
        lemma_staff_grows(before.drop_last(), after.drop_last(), at, name);
        vstd::seq_lib::lemma_multiset_commutative(staff(before.drop_last()), old_last);
        vstd::seq_lib::lemma_multiset_commutative(staff(after.drop_last()), new_last);
        assert(staff(after).to_multiset() =~= staff(before).to_multiset().insert(name));
    }
}

} // verus!
