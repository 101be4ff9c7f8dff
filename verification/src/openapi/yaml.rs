//! YAML values.

use vstd::prelude::*;
use crate::outside::{put_together, take_apart, value_tree};
use crate::text::same;

verus! {

/// A YAML value. Mappings keep the order of their entries.
pub enum Yaml {
    Null,
    Bool(bool),
    Number(serde_norway::Number),
    Text(String),
    Sequence(Vec<Yaml>),
    Mapping(Vec<(Yaml, Yaml)>),
    /// A value behind a `!tag`.
    Tagged(serde_norway::value::Tag, Box<Yaml>),
}

/// What a YAML value is, text for text.
pub enum YamlTree {
    Null,
    Bool(bool),
    Number(serde_norway::Number),
    Text(Seq<char>),
    Sequence(Seq<YamlTree>),
    Mapping(Seq<(YamlTree, YamlTree)>),
    Tagged(serde_norway::value::Tag, Box<YamlTree>),
}

impl View for Yaml {
    type V = YamlTree;

    open spec fn view(&self) -> YamlTree {
        self.tree()
    }
}

impl Yaml {
    /// What the value is.
    pub open spec fn tree(self) -> YamlTree
        decreases self,
    {
        match self {
            Yaml::Null => YamlTree::Null,
            Yaml::Bool(b) => YamlTree::Bool(b),
            Yaml::Number(n) => YamlTree::Number(n),
            Yaml::Text(s) => YamlTree::Text(s@),
            Yaml::Sequence(v) => YamlTree::Sequence(
                Seq::new(
                    v@.len(),
                    |i: int|
                        if 0 <= i < v@.len() {
                            v@[i].tree()
                        } else {
                            YamlTree::Null
                        },
                ),
            ),
            Yaml::Mapping(v) => YamlTree::Mapping(
                Seq::new(
                    v@.len(),
                    |i: int|
                        if 0 <= i < v@.len() {
                            (v@[i].0.tree(), v@[i].1.tree())
                        } else {
                            (YamlTree::Null, YamlTree::Null)
                        },
                ),
            ),
            Yaml::Tagged(tag, inner) => YamlTree::Tagged(tag, Box::new(inner.tree())),
        }
    }
}

/// One level of a `serde_norway::Value`.
pub enum Layer {
    Null,
    Bool(bool),
    Number(serde_norway::Number),
    Text(String),
    Sequence(Vec<serde_norway::Value>),
    Mapping(Vec<(serde_norway::Value, serde_norway::Value)>),
    Tagged(serde_norway::value::Tag, serde_norway::Value),
}

impl Layer {
    /// What the value is.
    pub open spec fn tree(self) -> YamlTree {
        match self {
            Layer::Null => YamlTree::Null,
            Layer::Bool(b) => YamlTree::Bool(b),
            Layer::Number(n) => YamlTree::Number(n),
            Layer::Text(s) => YamlTree::Text(s@),
            Layer::Sequence(v) => YamlTree::Sequence(
                v@.map_values(|x: serde_norway::Value| value_tree(x)),
            ),
            Layer::Mapping(v) => YamlTree::Mapping(
                v@.map_values(
                    |x: (serde_norway::Value, serde_norway::Value)|
                        (value_tree(x.0), value_tree(x.1)),
                ),
            ),
            Layer::Tagged(tag, inner) => YamlTree::Tagged(tag, Box::new(value_tree(inner))),
        }
    }

    /// No mapping, or one whose keys are texts, no two alike.
    pub open spec fn is_plain(self) -> bool {
        self.tree() matches YamlTree::Mapping(entries) ==> plain_keys(entries)
    }
}

/// Every key is a text, and no two are alike.
pub open spec fn plain_keys(entries: Seq<(YamlTree, YamlTree)>) -> bool {
    &&& forall|i: int| 0 <= i < entries.len() ==> (#[trigger] entries[i]).0 is Text
    &&& forall|i: int, j: int|
        0 <= i < entries.len() && 0 <= j < entries.len() && (#[trigger] entries[i]).0 == (
        #[trigger] entries[j]).0 ==> i == j
}

/// Reads a value level by level.
pub fn from_value(value: serde_norway::Value) -> (r: Yaml)
    ensures
        r@ == value_tree(value),
    decreases value_tree(value),
{
    match take_apart(value) {
        Layer::Null => Yaml::Null,
        Layer::Bool(b) => Yaml::Bool(b),
        Layer::Number(n) => Yaml::Number(n),
        Layer::Text(s) => Yaml::Text(s),
        Layer::Tagged(tag, inner) => {
            proof {
                let whole = value_tree(value);
                assert(*whole->Tagged_1 == value_tree(inner));
                assert(decreases_to!(whole => whole->Tagged_1));
            }
            Yaml::Tagged(tag, Box::new(from_value(inner)))
        },
        Layer::Sequence(items) => {
            let ghost whole = value_tree(value);
            let ghost all = items@;
            let mut v: Vec<Yaml> = Vec::new();
            for item in it: items
                invariant
                    it.seq() == all,
                    whole == YamlTree::Sequence(
                        all.map_values(|x: serde_norway::Value| value_tree(x)),
                    ),
                    whole == value_tree(value),
                    v@.len() == it.index(),
                    forall|i: int| 0 <= i < it.index() ==> (#[trigger] v@[i])@ == value_tree(all[i]),
            {
                assert(whole->Sequence_0[it.index() as int] == value_tree(item));
                v.push(from_value(item));
            }
            let r: Yaml = Yaml::Sequence(v);
            assert(r@->Sequence_0 =~= whole->Sequence_0);
            r
        },
        Layer::Mapping(items) => {
            let ghost whole = value_tree(value);
            let ghost all = items@;
            let mut v: Vec<(Yaml, Yaml)> = Vec::new();
            for item in it: items
                invariant
                    it.seq() == all,
                    whole == YamlTree::Mapping(
                        all.map_values(
                            |x: (serde_norway::Value, serde_norway::Value)|
                                (value_tree(x.0), value_tree(x.1)),
                        ),
                    ),
                    whole == value_tree(value),
                    v@.len() == it.index(),
                    forall|i: int|
                        0 <= i < it.index() ==> (#[trigger] v@[i]).0@ == value_tree(all[i].0)
                            && v@[i].1@ == value_tree(all[i].1),
            {
                let (key, inner): (serde_norway::Value, serde_norway::Value) = item;
                proof {
                    let entries = whole->Mapping_0;
                    let entry = entries[it.index() as int];
                    assert(entry == (value_tree(key), value_tree(inner)));
                    assert(decreases_to!(whole => entries));
                    assert(decreases_to!(entries => entry));
                    assert(decreases_to!(entry => entry.0));
                    assert(decreases_to!(entry => entry.1));
                }
                let k: Yaml = from_value(key);
                v.push((k, from_value(inner)));
            }
            let r: Yaml = Yaml::Mapping(v);
            assert(r@->Mapping_0 =~= whole->Mapping_0);
            r
        },
    }
}

/// Every mapping has plain keys.
pub open spec fn is_plain(t: YamlTree) -> bool
    decreases t,
{
    match t {
        YamlTree::Sequence(s) => forall|i: int| 0 <= i < s.len() ==> is_plain(#[trigger] s[i]),
        YamlTree::Mapping(e) => plain_keys(e) && forall|i: int|
            0 <= i < e.len() ==> is_plain((#[trigger] e[i]).1),
        YamlTree::Tagged(tag, inner) => is_plain(*inner),
        _ => true,
    }
}

/// Writes a value level by level. It keeps its contents when every mapping has
/// plain keys.
pub fn into_value(yaml: Yaml) -> (r: serde_norway::Value)
    ensures
        is_plain(yaml@) ==> value_tree(r) == yaml@,
    decreases yaml,
{
    match yaml {
        Yaml::Null => put_together(Layer::Null),
        Yaml::Bool(b) => put_together(Layer::Bool(b)),
        Yaml::Number(n) => put_together(Layer::Number(n)),
        Yaml::Text(s) => put_together(Layer::Text(s)),
        Yaml::Tagged(tag, inner) => {
            let value: serde_norway::Value = into_value(*inner);
            put_together(Layer::Tagged(tag, value))
        },
        Yaml::Sequence(items) => {
            let ghost all = items@;
            let mut v: Vec<serde_norway::Value> = Vec::new();
            for item in it: items
                invariant
                    it.seq() == all,
                    yaml == Yaml::Sequence(items),
                    all == items@,
                    v@.len() == it.index(),
                    is_plain(yaml@) ==> forall|i: int|
                        0 <= i < it.index() ==> value_tree(#[trigger] v@[i]) == all[i]@,
            {
                proof {
                    assert(decreases_to!(yaml => items));
                    assert(decreases_to!(items => items@));
                    assert(decreases_to!(items@ => items@[it.index() as int]));
                    if is_plain(yaml@) {
                        assert(is_plain(yaml@->Sequence_0[it.index() as int]));
                    }
                }
                v.push(into_value(item));
            }
            let layer: Layer = Layer::Sequence(v);
            proof {
                if is_plain(yaml@) {
                    assert(layer.tree()->Sequence_0 =~= yaml@->Sequence_0);
                }
            }
            put_together(layer)
        },
        Yaml::Mapping(items) => {
            let ghost all = items@;
            let mut v: Vec<(serde_norway::Value, serde_norway::Value)> = Vec::new();
            for item in it: items
                invariant
                    it.seq() == all,
                    yaml == Yaml::Mapping(items),
                    all == items@,
                    v@.len() == it.index(),
                    is_plain(yaml@) ==> forall|i: int|
                        0 <= i < it.index() ==> value_tree((#[trigger] v@[i]).0) == all[i].0@
                            && value_tree(v@[i].1) == all[i].1@,
            {
                let (key, inner): (Yaml, Yaml) = item;
                proof {
                    let entry = items@[it.index() as int];
                    assert(decreases_to!(yaml => items));
                    assert(decreases_to!(items => items@));
                    assert(decreases_to!(items@ => entry));
                    assert(decreases_to!(entry => entry.0));
                    assert(decreases_to!(entry => entry.1));
                    if is_plain(yaml@) {
                        let e = yaml@->Mapping_0;
                        assert(is_plain(e[it.index() as int].1));
                        assert(e[it.index() as int].0 is Text);
                    }
                }
                let k: serde_norway::Value = into_value(key);
                v.push((k, into_value(inner)));
            }
            let layer: Layer = Layer::Mapping(v);
            proof {
                if is_plain(yaml@) {
                    assert(layer.tree()->Mapping_0 =~= yaml@->Mapping_0);
                }
            }
            put_together(layer)
        },
    }
}

/// Where the key first stands, or the number of entries when it does not.
pub open spec fn position(entries: Seq<(YamlTree, YamlTree)>, key: Seq<char>) -> int
    decreases entries.len(),
{
    if entries.len() == 0 || entries[0].0 == YamlTree::Text(key) {
        0
    } else {
        1 + position(entries.skip(1), key)
    }
}

/// `position` is the least place that holds the key.
pub proof fn lemma_position(entries: Seq<(YamlTree, YamlTree)>, key: Seq<char>)
    ensures
        0 <= position(entries, key) <= entries.len(),
        position(entries, key) < entries.len() ==> entries[position(entries, key)].0
            == YamlTree::Text(key),
        forall|i: int| 0 <= i < position(entries, key) ==> (#[trigger] entries[i]).0
            != YamlTree::Text(key),
    decreases entries.len(),
{
    if entries.len() > 0 && entries[0].0 != YamlTree::Text(key) {
        let rest = entries.skip(1);
        lemma_position(rest, key);
        assert forall|i: int| 0 <= i < position(entries, key) implies (#[trigger] entries[i]).0
            != YamlTree::Text(key) by {
            if i > 0 {
                assert(rest[i - 1] == entries[i]);
            }
        }
    }
}

/// A place that holds the key, with none before it, is where the key first
/// stands.
pub proof fn lemma_position_is(entries: Seq<(YamlTree, YamlTree)>, key: Seq<char>, k: int)
    requires
        0 <= k <= entries.len(),
        k < entries.len() ==> entries[k].0 == YamlTree::Text(key),
        forall|i: int| 0 <= i < k ==> (#[trigger] entries[i]).0 != YamlTree::Text(key),
    ensures
        position(entries, key) == k,
{
    lemma_position(entries, key);
    let p = position(entries, key);
    if p < k {
        assert(entries[p].0 != YamlTree::Text(key));
    } else if k < p {
        assert(entries[k].0 != YamlTree::Text(key));
    }
}

/// The entries with `value` under the key: in the key's place, else at the
/// end.
pub open spec fn put(
    entries: Seq<(YamlTree, YamlTree)>,
    key: Seq<char>,
    value: YamlTree,
) -> Seq<(YamlTree, YamlTree)> {
    let k = position(entries, key);
    if k < entries.len() {
        entries.update(k, (entries[k].0, value))
    } else {
        entries.push((YamlTree::Text(key), value))
    }
}

/// The entries of a mapping.
pub open spec fn entry_trees(entries: Seq<(Yaml, Yaml)>) -> Seq<(YamlTree, YamlTree)> {
    Seq::new(entries.len(), |i: int| (entries[i].0@, entries[i].1@))
}

/// The items of a sequence.
pub open spec fn item_trees(items: Seq<Yaml>) -> Seq<YamlTree> {
    Seq::new(items.len(), |i: int| items[i]@)
}

/// The view of a mapping is the view of its entries.
pub proof fn lemma_mapping_view(entries: Vec<(Yaml, Yaml)>)
    ensures
        Yaml::Mapping(entries)@ == YamlTree::Mapping(entry_trees(entries@)),
{
    assert(Yaml::Mapping(entries)@->Mapping_0 =~= entry_trees(entries@));
}

/// The view of a sequence is the view of its items.
pub proof fn lemma_sequence_view(items: Vec<Yaml>)
    ensures
        Yaml::Sequence(items)@ == YamlTree::Sequence(item_trees(items@)),
{
    assert(Yaml::Sequence(items)@->Sequence_0 =~= item_trees(items@));
}

fn is_text(yaml: &Yaml, text: &str) -> (r: bool)
    ensures
        r == (yaml@ == YamlTree::Text(text@)),
{
    match yaml {
        Yaml::Text(s) => same(s.as_str(), text),
        _ => false,
    }
}

/// Where the key first stands, or the number of entries when it does not.
pub fn find_key(entries: &Vec<(Yaml, Yaml)>, key: &str) -> (r: usize)
    ensures
        r == position(entry_trees(entries@), key@),
        r <= entries@.len(),
{
    let ghost all = entry_trees(entries@);
    let mut i: usize = 0;
    while i < entries.len()
        invariant
            i <= entries.len(),
            all == entry_trees(entries@),
            forall|j: int| 0 <= j < i ==> (#[trigger] all[j]).0 != YamlTree::Text(key@),
        decreases entries.len() - i,
    {
        if is_text(&entries[i].0, key) {
            proof {
                lemma_position_is(all, key@, i as int);
            }
            return i;
        }
        i = i + 1;
    }
    proof {
        lemma_position_is(all, key@, i as int);
    }
    i
}

/// Puts `value` under the key: in the key's place, else at the end.
pub fn put_key(entries: &mut Vec<(Yaml, Yaml)>, key: &str, value: Yaml)
    ensures
        entry_trees(final(entries)@) == put(entry_trees(old(entries)@), key@, value@),
{
    let ghost before = entry_trees(entries@);
    let k: usize = find_key(entries, key);
    if k < entries.len() {
        let (kept, gone): (Yaml, Yaml) = entries.remove(k);
        entries.insert(k, (kept, value));
    } else {
        entries.push((Yaml::Text(key.to_owned()), value));
    }
    proof {
        assert(entry_trees(entries@) =~= put(before, key@, value@));
    }
}

/// A value is what it holds, level by level: scalars themselves, sequences and
/// mappings their items in order, a tagged value what stands behind the tag.
pub proof fn what_a_value_is(
    b: bool,
    n: serde_norway::Number,
    s: String,
    items: Vec<Yaml>,
    entries: Vec<(Yaml, Yaml)>,
    tag: serde_norway::value::Tag,
    inner: Box<Yaml>,
    i: int,
)
    ensures
        Yaml::Null@ is Null,
        Yaml::Bool(b)@ == YamlTree::Bool(b),
        Yaml::Number(n)@ == YamlTree::Number(n),
        Yaml::Text(s)@ == YamlTree::Text(s@),
        Yaml::Sequence(items)@ is Sequence && Yaml::Sequence(items)@->Sequence_0.len()
            == items@.len(),
        0 <= i < items@.len() ==> Yaml::Sequence(items)@->Sequence_0[i] == items@[i]@,
        Yaml::Mapping(entries)@ is Mapping && Yaml::Mapping(entries)@->Mapping_0.len()
            == entries@.len(),
        0 <= i < entries@.len() ==> Yaml::Mapping(entries)@->Mapping_0[i] == (
            entries@[i].0@,
            entries@[i].1@,
        ),
        Yaml::Tagged(tag, inner)@ is Tagged && Yaml::Tagged(tag, inner)@->Tagged_0 == tag
            && *Yaml::Tagged(tag, inner)@->Tagged_1 == inner@,
{
    lemma_sequence_view(items);
    lemma_mapping_view(entries);
}

} // verus!
