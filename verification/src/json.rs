//! The tree form of messages: JSON values, and the codec between messages and trees.

use vstd::prelude::*;
use vstd::utf8::*;
use crate::double::Double;
use crate::{Rep, Req, Trans};

pub use crate::text::json_str_to_anything;

verus! {

/// A JSON value.
#[derive(Debug)]
pub enum Tree {
    I64(i64),
    U64(u64),
    F64(Double),
    String(String),
    Boolean(bool),
    Array(Vec<Tree>),
    Object(Object),
    Null,
}

/// The members of a JSON object: values under keys, no key twice.
#[derive(Debug)]
pub struct Object {
    pub(crate) entries: Vec<(String, Tree)>,
}

/// View of [`Tree`]: an array is a sequence, an object a finite map.
pub enum TreeView {
    I64(i64),
    U64(u64),
    F64(Double),
    String(Seq<char>),
    Boolean(bool),
    Array(Seq<TreeView>),
    Object(Map<Seq<char>, TreeView>),
    Null,
}

impl View for Tree {
    type V = TreeView;

    open spec fn view(&self) -> TreeView
        decreases self,
    {
        match self {
            Tree::I64(n) => TreeView::I64(*n),
            Tree::U64(n) => TreeView::U64(*n),
            Tree::F64(x) => TreeView::F64(*x),
            Tree::String(s) => TreeView::String(s@),
            Tree::Boolean(b) => TreeView::Boolean(*b),
            Tree::Array(items) => TreeView::Array(views_of_items(items@)),
            Tree::Object(object) => TreeView::Object(object@),
            Tree::Null => TreeView::Null,
        }
    }
}

/// The views of the items of an array, in order.
pub open spec fn views_of_items(items: Seq<Tree>) -> Seq<TreeView>
    decreases items,
{
    Seq::new(
        items.len(),
        |i: int|
            if 0 <= i < items.len() {
                items[i]@
            } else {
                TreeView::Null
            },
    )
}

impl Object {
    /// Entry `i` is the last one under `key`.
    pub closed spec fn holds(&self, key: Seq<char>, i: int) -> bool {
        &&& 0 <= i < self.entries@.len()
        &&& self.entries@[i].0@ == key
        &&& forall|j: int| i < j < self.entries@.len() ==> (#[trigger] self.entries@[j]).0@ != key
    }

    /// No two entries have the same key.
    pub closed spec fn distinct(&self) -> bool {
        forall|i: int, j: int|
            0 <= i < j < self.entries@.len() ==> (#[trigger] self.entries@[i]).0@ != (
            #[trigger] self.entries@[j]).0@
    }
}

impl View for Object {
    type V = Map<Seq<char>, TreeView>;

    closed spec fn view(&self) -> Map<Seq<char>, TreeView>
        decreases self,
    {
        Map::new(
            |key: Seq<char>| exists|i: int| self.holds(key, i),
            |key: Seq<char>|
                {
                    let i = choose|i: int| self.holds(key, i);
                    if 0 <= i < self.entries@.len() {
                        self.entries@[i].1@
                    } else {
                        TreeView::Null
                    }
                },
        )
    }
}

/// Whether two strings hold the same text.
pub fn same_text(a: &str, b: &str) -> (same: bool)
    ensures
        same == (a@ == b@),
{
    let x = a.as_bytes();
    let y = b.as_bytes();
    proof {
        encode_utf8_decode_utf8(a@);
        encode_utf8_decode_utf8(b@);
    }
    if x.len() != y.len() {
        return false;
    }
    let mut i: usize = 0;
    while i < x.len()
        invariant
            i <= x@.len(),
            x@.len() == y@.len(),
            x@ == encode_utf8(a@),
            y@ == encode_utf8(b@),
            forall|j: int| 0 <= j < i ==> x@[j] == y@[j],
        decreases x@.len() - i,
    {
        if x[i] != y[i] {
            return false;
        }
        i += 1;
    }
    assert(x@ =~= y@);
    true
}

impl Object {
    /// An object without members.
    pub fn new() -> (object: Object)
        ensures
            object@ == Map::<Seq<char>, TreeView>::empty(),
            object.distinct(),
    {
        let object = Object { entries: Vec::new() };
        assert(object@ =~= Map::<Seq<char>, TreeView>::empty());
        object
    }

    /// The place of the last entry under `key`.
    fn find(&self, key: &str) -> (place: Option<usize>)
        ensures
            match place {
                Some(i) => self.holds(key@, i as int),
                None => forall|i: int| !self.holds(key@, i),
            },
    {
        let mut i: usize = self.entries.len();
        while i > 0
            invariant
                i <= self.entries@.len(),
                forall|j: int|
                    i <= j < self.entries@.len() ==> (#[trigger] self.entries@[j]).0@ != key@,
            decreases i,
        {
            i -= 1;
            if same_text(self.entries[i].0.as_str(), key) {
                return Some(i);
            }
        }
        None
    }

    /// The value under `key`, if there is one.
    pub fn get(&self, key: &str) -> (value: Option<&Tree>)
        ensures
            match value {
                Some(json) => self@.contains_key(key@) && self@[key@] == json@,
                None => !self@.contains_key(key@),
            },
    {
        match self.find(key) {
            Some(i) => {
                proof {
                    self.lemma_holds_unique(key@, i as int);
                }
                Some(&self.entries[i].1)
            },
            None => None,
        }
    }

    /// At most one entry is the last one under a key.
    proof fn lemma_holds_unique(&self, key: Seq<char>, i: int)
        requires
            self.holds(key, i),
        ensures
            self@.contains_key(key),
            self@[key] == self.entries@[i].1@,
    {
        let c = choose|c: int| self.holds(key, c);
        assert(c == i) by {
            if c < i {
                assert(self.entries@[i].0@ == key);
            } else if i < c {
                assert(self.entries@[c].0@ == key);
            }
        }
    }

    /// What the entries of `after` hold, where they are those of `self` but for one under
    /// `key`: the last one of `self` under that key, replaced, or a new last one.
    proof fn lemma_entry_put(&self, after: &Object, key: Seq<char>, value: TreeView, at: int)
        requires
            0 <= at < after.entries@.len(),
            after.entries@[at].0@ == key,
            after.entries@[at].1@ == value,
            self.holds(key, at) && after.entries@ == self.entries@.update(at, after.entries@[at])
                || (forall|i: int| !self.holds(key, i)) && at == self.entries@.len()
                && after.entries@ == self.entries@.push(after.entries@[at]),
        ensures
            after@ == self@.insert(key, value),
            self.distinct() ==> after.distinct(),
    {
        let b = self.entries@;
        let a = after.entries@;
        assert(forall|j: int| 0 <= j < b.len() && j != at ==> a[j] == b[j]);
        assert(forall|j: int| at < j < a.len() ==> a[j].0@ != key) by {
            assert forall|j: int| at < j < a.len() implies a[j].0@ != key by {
                if a.len() == b.len() {
                    assert(a[j] == b[j]);
                }
            }
        }
        assert(after.holds(key, at));
        after.lemma_holds_unique(key, at);
        assert forall|k: Seq<char>| k != key implies (self@.contains_key(k)
            <==> #[trigger] after@.contains_key(k)) && (self@.contains_key(k) ==> self@[k]
            == after@[k]) by {
            if self@.contains_key(k) {
                let i = choose|i: int| self.holds(k, i);
                self.lemma_holds_unique(k, i);
                assert(a[i] == b[i]);
                assert forall|j: int| i < j < a.len() implies a[j].0@ != k by {
                    if j != at {
                        assert(a[j] == b[j]);
                    }
                }
                assert(after.holds(k, i));
                after.lemma_holds_unique(k, i);
            }
            if after@.contains_key(k) {
                let i = choose|i: int| after.holds(k, i);
                assert(a[i] == b[i]);
                assert forall|j: int| i < j < b.len() implies b[j].0@ != k by {
                    if j != at {
                        assert(a[j] == b[j]);
                    } else {
                        assert(b[at].0@ == key);
                    }
                }
                assert(self.holds(k, i));
                self.lemma_holds_unique(k, i);
            }
        }
        assert(after@ =~= self@.insert(key, value));
        if self.distinct() {
            assert forall|i: int, j: int| 0 <= i < j < a.len() implies a[i].0@ != a[j].0@ by {
                if i != at && j != at {
                    assert(a[i] == b[i]);
                    assert(a[j] == b[j]);
                } else if i == at {
                    assert(a[j] == b[j]);
                    if a.len() == b.len() {
                        assert(b[i].0@ != b[j].0@);
                    }
                } else {
                    assert(a[i] == b[i]);
                    if a.len() == b.len() {
                        assert(b[i].0@ != b[j].0@);
                    } else {
                        self.lemma_absent(key, i);
                    }
                }
            }
        }
    }

    /// Where no entry is the last one under `key`, no entry is under `key`.
    proof fn lemma_absent(&self, key: Seq<char>, i: int)
        requires
            forall|j: int| !self.holds(key, j),
            0 <= i < self.entries@.len(),
        ensures
            self.entries@[i].0@ != key,
        decreases self.entries@.len() - i,
    {
        if self.entries@[i].0@ == key {
            if exists|j: int| i < j < self.entries@.len() && self.entries@[j].0@ == key {
                let j = choose|j: int| i < j < self.entries@.len() && self.entries@[j].0@ == key;
                self.lemma_absent(key, j);
            } else {
                assert(self.holds(key, i));
            }
        }
    }

    /// Puts `value` under `key`, in place of what was there.
    pub fn insert(&mut self, key: String, value: Tree)
        ensures
            final(self)@ == old(self)@.insert(key@, value@),
            old(self).distinct() ==> final(self).distinct(),
    {
        let ghost before = *self;
        let ghost k = key@;
        let ghost v = value@;
        match self.find(key.as_str()) {
            Some(i) => {
                self.entries.set(i, (key, value));
                proof {
                    before.lemma_entry_put(&*self, k, v, i as int);
                }
            },
            None => {
                self.entries.push((key, value));
                proof {
                    before.lemma_entry_put(&*self, k, v, self.entries@.len() - 1);
                }
            },
        }
    }
}

/// Why a tree could not be read, with the node at which reading stopped.
#[derive(Debug)]
pub enum JsonDecodeError<'a> {
    /// The node has no shape or token that the target type knows.
    UnexpectedToken(&'a Tree),
    /// The node is an object that lacks a key, has keys that exclude each other, or has a
    /// value of the wrong kind under a key.
    MalformedObject(&'a Tree),
}

/// View of [`JsonDecodeError`].
pub enum JsonFault {
    UnexpectedToken(TreeView),
    MalformedObject(TreeView),
}

impl<'a> View for JsonDecodeError<'a> {
    type V = JsonFault;

    open spec fn view(&self) -> JsonFault {
        match self {
            JsonDecodeError::UnexpectedToken(json) => JsonFault::UnexpectedToken(json@),
            JsonDecodeError::MalformedObject(json) => JsonFault::MalformedObject(json@),
        }
    }
}

/// What `from_json` computes: the view of the value that a tree stands for, or the fault.
pub type Read<V> = Result<V, JsonFault>;

/// A value that can be shown as a tree.
pub trait ToJson: View {
    /// The tree that stands for a value.
    spec fn tree(v: Self::V) -> TreeView;

    /// Whether every double in the value is finite, so that the tree holds it as a number.
    spec fn finite(v: Self::V) -> bool;

    /// The value as a tree.
    fn to_json(&self) -> (json: Tree)
        ensures
            json@ == Self::tree(self@),
    ;
}

/// A value that can be read from a tree.
pub trait FromJson: Sized + View {
    /// The value that a tree stands for, or why it stands for none.
    spec fn read(tree: TreeView) -> Read<Self::V>;

    /// Reads a value from a tree.
    fn from_json<'a>(json: &'a Tree) -> (r: Result<Self, JsonDecodeError<'a>>)
        ensures
            read_as(r, Self::read(json@)),
    ;
}

/// `r` is the outcome `p`: a value with the view that `p` has, or an error with the view
/// of the fault.
pub open spec fn read_as<T: View>(r: Result<T, JsonDecodeError>, p: Read<T::V>) -> bool {
    match p {
        Ok(v) => r matches Ok(value) && value@ == v,
        Err(fault) => r matches Err(e) && e@ == fault,
    }
}

/// The value under `key` in a tree that is an object which has the key.
pub open spec fn member(tree: TreeView, key: Seq<char>) -> Option<TreeView> {
    match tree {
        TreeView::Object(members) => if members.contains_key(key) {
            Some(members[key])
        } else {
            None
        },
        _ => None,
    }
}

/// The elements of an array are the views of its items.
pub proof fn lemma_array_view(items: Vec<Tree>)
    ensures
        Tree::Array(items)@ matches TreeView::Array(views) && views.len() == items@.len()
            && forall|i: int| 0 <= i < views.len() ==> #[trigger] views[i] == items@[i]@,
{
    let json = Tree::Array(items);
    assert(json@ == TreeView::Array(views_of_items(items@)));
    assert(views_of_items(items@).len() == items@.len());
    assert forall|i: int| 0 <= i < items@.len() implies #[trigger] views_of_items(items@)[i]
        == items@[i]@ by {}
}

/// A request as a tree.
pub fn req_to_json<UD: ToJson>(trans: &Trans<UD>) -> (json: Tree)
    ensures
        json@ == Trans::<UD>::tree(trans@),
{
    trans.to_json()
}

/// A reply as a tree.
pub fn rep_to_json<UD: ToJson>(rep: &Rep<UD>) -> (json: Tree)
    ensures
        json@ == Rep::<UD>::tree(rep@),
{
    rep.to_json()
}

/// Reads the body of a request from a tree.
pub fn json_to_req<'a, UD: FromJson>(json: &'a Tree) -> (r: Result<Req<UD>, JsonDecodeError<'a>>)
    ensures
        read_as(r, Req::<UD>::read(json@)),
{
    Req::from_json(json)
}

/// Reads a reply from a tree.
pub fn json_to_rep<'a, UD: FromJson>(json: &'a Tree) -> (r: Result<Rep<UD>, JsonDecodeError<'a>>)
    ensures
        read_as(r, Rep::<UD>::read(json@)),
{
    Rep::from_json(json)
}

} // verus!
