//! The structured value that crosses the host-guest boundary.
use vstd::prelude::*;
use vstd::string::StringExecFns;

verus! {

/// The unit of exchange: a text field, a sequence of texts and a sequence of
/// small unsigned integers.
pub struct SharedStruct {
    pub name: String,
    pub list: Vec<String>,
    pub other_list: Vec<u8>,
}

/// Mathematical model of a [`SharedStruct`].
pub ghost struct SharedValue {
    pub name: Seq<char>,
    pub list: Seq<Seq<char>>,
    pub other_list: Seq<u8>,
}

/// The texts of a list of strings.
pub open spec fn texts(l: Seq<String>) -> Seq<Seq<char>> {
    l.map_values(|s: String| s@)
}

impl View for SharedStruct {
    type V = SharedValue;

    open spec fn view(&self) -> SharedValue {
        SharedValue { name: self.name@, list: texts(self.list@), other_list: self.other_list@ }
    }
}

/// The example transform: it appends `_updated` to the name, replaces the first
/// item of `list` with `updated_5`, and replaces the first two numbers of
/// `other_list` with `15`.
pub open spec fn transformed(v: SharedValue) -> SharedValue
    recommends
        v.list.len() >= 1,
        v.other_list.len() >= 2,
{
    SharedValue {
        name: v.name + "_updated"@,
        list: seq!["updated_5"@] + v.list.skip(1),
        other_list: seq![15u8] + v.other_list.skip(2),
    }
}

/// A copy of `l[from..]`.
fn copy_texts_from(l: &Vec<String>, from: usize) -> (r: Vec<String>)
    requires
        from <= l@.len(),
    ensures
        r@ == l@.skip(from as int),
{
    let mut r: Vec<String> = Vec::new();
    let mut i: usize = from;
    while i < l.len()
        invariant
            from <= i <= l@.len(),
            r@ == l@.subrange(from as int, i as int),
        decreases l@.len() - i,
    {
        let item = l[i].clone();
        r.push(item);
        proof {
            assert(r@ =~= l@.subrange(from as int, i + 1));
        }
        i = i + 1;
    }
    proof {
        assert(l@.skip(from as int) =~= l@.subrange(from as int, l@.len() as int));
    }
    r
}

/// A copy of `l[from..]`.
fn copy_bytes_from(l: &Vec<u8>, from: usize) -> (r: Vec<u8>)
    requires
        from <= l@.len(),
    ensures
        r@ == l@.skip(from as int),
{
    let mut r: Vec<u8> = Vec::new();
    let mut i: usize = from;
    while i < l.len()
        invariant
            from <= i <= l@.len(),
            r@ == l@.subrange(from as int, i as int),
        decreases l@.len() - i,
    {
        r.push(l[i]);
        proof {
            assert(r@ =~= l@.subrange(from as int, i + 1));
        }
        i = i + 1;
    }
    proof {
        assert(l@.skip(from as int) =~= l@.subrange(from as int, l@.len() as int));
    }
    r
}

impl SharedStruct {
    /// Builds a value from its three fields.
    pub fn new(name: String, list: Vec<String>, other_list: Vec<u8>) -> (r: SharedStruct)
        ensures
            r.name == name,
            r.list == list,
            r.other_list == other_list,
    {
        SharedStruct { name, list, other_list }
    }

    /// Whether [`SharedStruct::transform`] can rewrite this value: `list`
    /// holds an item and `other_list` two numbers.
    pub fn can_transform(&self) -> (r: bool)
        ensures
            r == (self@.list.len() >= 1 && self@.other_list.len() >= 2),
    {
        self.list.len() >= 1 && self.other_list.len() >= 2
    }

    /// The guest's example computation; see [`transformed`].
    pub fn transform(&self) -> (r: SharedStruct)
        requires
            self@.list.len() >= 1,
            self@.other_list.len() >= 2,
        ensures
            r@ == transformed(self@),
    {
        let mut name = self.name.clone();
        name.append("_updated");
        let mut list: Vec<String> = Vec::new();
        list.push(String::from_str("updated_5"));
        let mut rest = copy_texts_from(&self.list, 1);
        list.append(&mut rest);
        let mut other_list: Vec<u8> = Vec::new();
        other_list.push(15u8);
        let mut rest_bytes = copy_bytes_from(&self.other_list, 2);
        other_list.append(&mut rest_bytes);
        let r = SharedStruct { name, list, other_list };
        proof {
            assert(texts(r.list@) =~= seq!["updated_5"@] + texts(self.list@).skip(1));
            assert(r.other_list@ =~= seq![15u8] + self.other_list@.skip(2));
        }
        r
    }
}

} // verus!
