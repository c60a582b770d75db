//! The labels of a container: a map from label names to values, kept as a
//! list in which no name occurs twice.

use vstd::prelude::*;

use crate::process::ProcessKind;

verus! {

/// One label: its name and its value.
#[derive(Clone, Debug, PartialEq, Eq)]
pub struct Label {
    pub name: String,
    pub value: String,
}

/// The labels of a container.
#[derive(Debug)]
pub struct Labels {
    entries: Vec<Label>,
}

/// The map that a list of labels stands for; of two labels of one name the
/// later one counts.
pub open spec fn label_map(entries: Seq<Label>) -> Map<Seq<char>, Seq<char>>
    decreases entries.len(),
{
    if entries.len() == 0 {
        Map::empty()
    } else {
        label_map(entries.drop_last()).insert(entries.last().name@, entries.last().value@)
    }
}

/// Whether no name occurs twice in the list.
pub open spec fn names_distinct(entries: Seq<Label>) -> bool {
    forall|i: int, j: int|
        0 <= i < j < entries.len() ==> (#[trigger] entries[i]).name@ != (
        #[trigger] entries[j]).name@
}

/// Where no name occurs twice in a list, none does in the list without its
/// last label.
proof fn lemma_front_distinct(entries: Seq<Label>)
    requires
        names_distinct(entries),
        entries.len() > 0,
    ensures
        names_distinct(entries.drop_last()),
{
    let front = entries.drop_last();
    assert forall|i: int, j: int| 0 <= i < j < front.len() implies (#[trigger] front[i]).name@ != (
    #[trigger] front[j]).name@ by {
        assert(entries[i].name@ != entries[j].name@);
    }
}

/// A name is in the map exactly if the list holds a label of that name.
pub proof fn lemma_label_map_dom(entries: Seq<Label>, name: Seq<char>)
    ensures
        label_map(entries).dom().contains(name) <==> exists|i: int|
            0 <= i < entries.len() && (#[trigger] entries[i]).name@ == name,
    decreases entries.len(),
{
    if entries.len() > 0 {
        let front = entries.drop_last();
        lemma_label_map_dom(front, name);
        if label_map(entries).dom().contains(name) {
            if entries.last().name@ == name {
                assert(entries[entries.len() - 1].name@ == name);
            } else {
                let i = choose|i: int| 0 <= i < front.len() && (#[trigger] front[i]).name@ == name;
                assert(entries[i].name@ == name);
            }
        }
        if exists|i: int| 0 <= i < entries.len() && (#[trigger] entries[i]).name@ == name {
            let i = choose|i: int| 0 <= i < entries.len() && (#[trigger] entries[i]).name@ == name;
            if i < front.len() {
                assert(front[i].name@ == name);
            }
        }
    }
}

/// Where no name occurs twice, the map gives each label's value for its name.
pub proof fn lemma_label_map_value(entries: Seq<Label>, at: int)
    requires
        names_distinct(entries),
        0 <= at < entries.len(),
    ensures
        label_map(entries).dom().contains(entries[at].name@),
        label_map(entries)[entries[at].name@] == entries[at].value@,
    decreases entries.len(),
{
    let front = entries.drop_last();
    if at < entries.len() - 1 {
        lemma_front_distinct(entries);
        lemma_label_map_value(front, at);
        assert(entries[at].name@ != entries[entries.len() - 1].name@);
    }
}

/// Where no name occurs twice, giving the label at `at` another value is
/// inserting that value under its name.
pub proof fn lemma_label_map_update(entries: Seq<Label>, at: int, label: Label)
    requires
        names_distinct(entries),
        0 <= at < entries.len(),
        label.name@ == entries[at].name@,
    ensures
        names_distinct(entries.update(at, label)),
        label_map(entries.update(at, label)) == label_map(entries).insert(
            label.name@,
            label.value@,
        ),
    decreases entries.len(),
{
    let updated = entries.update(at, label);
    assert forall|i: int, j: int| 0 <= i < j < updated.len() implies (#[trigger] updated[i]).name@
        != (#[trigger] updated[j]).name@ by {
        assert(entries[i].name@ != entries[j].name@);
    }
    let front = entries.drop_last();
    if at == entries.len() - 1 {
        assert(updated.drop_last() =~= front);
        assert(label_map(updated) =~= label_map(entries).insert(label.name@, label.value@));
    } else {
        lemma_front_distinct(entries);
        lemma_label_map_update(front, at, label);
        assert(updated.drop_last() =~= front.update(at, label));
        assert(entries[at].name@ != entries[entries.len() - 1].name@);
        assert(label_map(updated) =~= label_map(entries).insert(label.name@, label.value@));
    }
}

impl View for Labels {
    type V = Map<Seq<char>, Seq<char>>;

    closed spec fn view(&self) -> Map<Seq<char>, Seq<char>> {
        label_map(self.entries@)
    }
}

impl Clone for Labels {
    fn clone(&self) -> (res: Labels)
        ensures
            res@ == self@,
    {
        Labels { entries: self.to_vec() }
    }
}

impl Labels {
    #[verifier::type_invariant]
    spec fn no_name_twice(self) -> bool {
        names_distinct(self.entries@)
    }

    /// No labels.
    pub fn new() -> (res: Labels)
        ensures
            res@ == Map::<Seq<char>, Seq<char>>::empty(),
    {
        Labels { entries: Vec::new() }
    }

    /// How many labels there are.
    pub fn len(&self) -> (res: usize)
        ensures
            res == self@.dom().len(),
            self@.dom().finite(),
    {
        proof {
            use_type_invariant(self);
            lemma_label_count(self.entries@);
        }
        self.entries.len()
    }

    /// The value of the label of the given name, if there is one.
    pub fn get(&self, name: &str) -> (res: Option<String>)
        ensures
            res is Some <==> self@.dom().contains(name@),
            res matches Some(value) ==> value@ == self@[name@],
    {
        proof {
            use_type_invariant(self);
        }
        let wanted = name.to_owned();
        let mut i: usize = 0;
        while i < self.entries.len()
            invariant
                i <= self.entries@.len(),
                wanted@ == name@,
                names_distinct(self.entries@),
                forall|j: int| 0 <= j < i ==> (#[trigger] self.entries@[j]).name@ != name@,
            decreases self.entries@.len() - i,
        {
            if self.entries[i].name == wanted {
                proof {
                    lemma_label_map_value(self.entries@, i as int);
                }
                return Some(self.entries[i].value.clone());
            }
            i += 1;
        }
        proof {
            lemma_label_map_dom(self.entries@, name@);
        }
        None
    }

    /// Sets the label of the given name to the given value, whether or not
    /// there was one of that name.
    pub fn insert(&mut self, name: String, value: String)
        ensures
            final(self)@ == old(self)@.insert(name@, value@),
    {
        proof {
            use_type_invariant(&*self);
        }
        let mut at: usize = 0;
        while at < self.entries.len() && !(self.entries[at].name == name)
            invariant
                at <= self.entries@.len(),
                forall|j: int| 0 <= j < at ==> (#[trigger] self.entries@[j]).name@ != name@,
            decreases self.entries@.len() - at,
        {
            at += 1;
        }
        let mut taken = Labels::new();
        core::mem::swap(self, &mut taken);
        let mut entries = taken.entries;
        let label = Label { name, value };
        if at < entries.len() {
            proof {
                lemma_label_map_update(entries@, at as int, label);
            }
            entries.set(at, label);
        } else {
            proof {
                let pushed = entries@.push(label);
                assert(pushed.drop_last() =~= entries@);
                assert(names_distinct(pushed));
            }
            entries.push(label);
        }
        *self = Labels { entries };
    }

    /// The labels as a list, each name once.
    pub fn to_vec(&self) -> (res: Vec<Label>)
        ensures
            names_distinct(res@),
            label_map(res@) == self@,
    {
        proof {
            use_type_invariant(self);
        }
        let mut out: Vec<Label> = Vec::new();
        let mut i: usize = 0;
        while i < self.entries.len()
            invariant
                i <= self.entries@.len(),
                same_labels(out@, self.entries@.take(i as int)),
            decreases self.entries@.len() - i,
        {
            let label = &self.entries[i];
            out.push(Label { name: label.name.clone(), value: label.value.clone() });
            i += 1;
        }
        proof {
            assert(self.entries@.take(i as int) =~= self.entries@);
            lemma_same_labels(out@, self.entries@);
        }
        out
    }
}

/// Whether two lists agree label by label.
pub open spec fn same_labels(a: Seq<Label>, b: Seq<Label>) -> bool {
    &&& a.len() == b.len()
    &&& forall|j: int|
        0 <= j < a.len() ==> (#[trigger] a[j]).name@ == b[j].name@ && a[j].value@ == b[j].value@
}

/// Lists that agree label by label stand for the same map, and where no
/// name occurs twice in one, none does in the other.
pub proof fn lemma_same_labels(a: Seq<Label>, b: Seq<Label>)
    requires
        same_labels(a, b),
    ensures
        label_map(a) == label_map(b),
        names_distinct(b) ==> names_distinct(a),
    decreases a.len(),
{
    if a.len() > 0 {
        assert(a[a.len() - 1].name@ == b[a.len() - 1].name@);
        assert(same_labels(a.drop_last(), b.drop_last())) by {
            assert forall|j: int| 0 <= j < a.len() - 1 implies (#[trigger] a.drop_last()[j]).name@
                == b.drop_last()[j].name@ && a.drop_last()[j].value@ == b.drop_last()[j].value@ by {
                assert(a[j].name@ == b[j].name@);
            }
        }
        lemma_same_labels(a.drop_last(), b.drop_last());
    }
    if names_distinct(b) {
        assert forall|i: int, j: int| 0 <= i < j < a.len() implies (#[trigger] a[i]).name@ != (
        #[trigger] a[j]).name@ by {
            assert(b[i].name@ != b[j].name@);
        }
    }
}

/// Where no name occurs twice, the map has as many names as the list has
/// labels.
pub proof fn lemma_label_count(entries: Seq<Label>)
    requires
        names_distinct(entries),
    ensures
        label_map(entries).dom().finite(),
        label_map(entries).dom().len() == entries.len(),
    decreases entries.len(),
{
    if entries.len() > 0 {
        let front = entries.drop_last();
        lemma_front_distinct(entries);
        lemma_label_count(front);
        lemma_label_map_dom(front, entries.last().name@);
        if label_map(front).dom().contains(entries.last().name@) {
            let i = choose|i: int|
                0 <= i < front.len() && (#[trigger] front[i]).name@ == entries.last().name@;
            assert(entries[i].name@ != entries[entries.len() - 1].name@);
        }
        assert(label_map(entries).dom() =~= label_map(front).dom().insert(entries.last().name@));
    }
}

/// The name of the label that marks a container as the daemon's own.
pub open spec fn owner_label() -> Seq<char> {
    "io.nanocl"@
}

/// The value of the label that marks a container as the daemon's own.
pub open spec fn owner_value() -> Seq<char> {
    "enabled"@
}

/// The name of the label that says which kind of workload a container
/// belongs to.
pub open spec fn kind_label() -> Seq<char> {
    "io.nanocl.kind"@
}

/// The labels of a container of the daemon: those given, and over them the
/// label that marks the container as the daemon's own and the label of its
/// kind.
pub open spec fn owned_labels(labels: Map<Seq<char>, Seq<char>>, kind: ProcessKind) -> Map<
    Seq<char>,
    Seq<char>,
> {
    labels.insert(owner_label(), owner_value()).insert(kind_label(), kind.name())
}

/// Whatever labels were given, the labels of a container of the daemon say
/// that it is the daemon's own and of which kind it is, and keep every other
/// label that was given.
pub proof fn lemma_owned_labels(labels: Map<Seq<char>, Seq<char>>, kind: ProcessKind)
    ensures
        owned_labels(labels, kind).dom().contains(owner_label()),
        owned_labels(labels, kind)[owner_label()] == owner_value(),
        owned_labels(labels, kind).dom().contains(kind_label()),
        owned_labels(labels, kind)[kind_label()] == kind.name(),
        forall|name: Seq<char>|
            name != owner_label() && name != kind_label() && labels.dom().contains(name) ==> {
                &&& #[trigger] owned_labels(labels, kind).dom().contains(name)
                &&& owned_labels(labels, kind)[name] == labels[name]
            },
{
    reveal_strlit("io.nanocl");
    reveal_strlit("io.nanocl.kind");
    assert(owner_label().len() != kind_label().len());
}

/// Adds to the labels of a container the two that the daemon finds its
/// containers by: `io.nanocl=enabled` and `io.nanocl.kind=<kind>`.
pub fn with_owner_labels(labels: Labels, kind: ProcessKind) -> (res: Labels)
    ensures
        res@ == owned_labels(labels@, kind),
{
    let mut labels = labels;
    labels.insert("io.nanocl".to_owned(), "enabled".to_owned());
    labels.insert("io.nanocl.kind".to_owned(), kind.to_string());
    labels
}

} // verus!
