//! The document in the OpenAPI 3.0.3 dialect.
//!
//! The generated document speaks 3.1. Three things differ: the version field,
//! nullability (`type: [T, "null"]` becomes `type: T` with `nullable: true`),
//! and schema `examples` arrays, which become the singular `example`. Reusable
//! path parameters are added.

use vstd::prelude::*;
use super::yaml::{
    entry_trees, find_key, item_trees, lemma_mapping_view, lemma_sequence_view, position, put,
    put_key, Yaml, YamlTree,
};
use crate::text::same;

verus! {

/// The text of a value, tags aside.
pub open spec fn untagged_text(t: YamlTree) -> Option<Seq<char>>
    decreases t,
{
    match t {
        YamlTree::Text(s) => Some(s),
        YamlTree::Tagged(tag, inner) => untagged_text(*inner),
        _ => None,
    }
}

/// The name of the null type.
pub open spec fn is_null_type(t: YamlTree) -> bool {
    untagged_text(t) == Some("null"@)
}

/// Whether the null type is among `types`.
pub open spec fn names_null(types: Seq<YamlTree>) -> bool {
    exists|i: int| 0 <= i < types.len() && is_null_type(#[trigger] types[i])
}

/// `types` without the null type.
pub open spec fn non_null(types: Seq<YamlTree>) -> Seq<YamlTree> {
    types.filter(|t: YamlTree| !is_null_type(t))
}

/// One type stands for itself, several stand as a list.
pub open spec fn type_of(rest: Seq<YamlTree>) -> YamlTree {
    if rest.len() == 1 {
        rest[0]
    } else {
        YamlTree::Sequence(rest)
    }
}

/// The list of types of a schema, if it has one.
pub open spec fn type_list(entries: Seq<(YamlTree, YamlTree)>) -> Option<Seq<YamlTree>> {
    let k = position(entries, "type"@);
    if k < entries.len() {
        match entries[k].1 {
            YamlTree::Sequence(types) => Some(types),
            _ => None,
        }
    } else {
        None
    }
}

/// Whether a schema names the null type in a list.
pub open spec fn has_null_type(entries: Seq<(YamlTree, YamlTree)>) -> bool {
    type_list(entries) matches Some(types) && names_null(types)
}

/// A schema with `nullable` in place of the null type.
pub open spec fn with_nullable(entries: Seq<(YamlTree, YamlTree)>) -> Seq<(YamlTree, YamlTree)> {
    if has_null_type(entries) {
        put(
            put(entries, "type"@, type_of(non_null(type_list(entries)->0))),
            "nullable"@,
            YamlTree::Bool(true),
        )
    } else {
        entries
    }
}

/// `nullable` in place of the null type, in every schema.
pub open spec fn without_null_types(t: YamlTree) -> YamlTree
    decreases t,
{
    match t {
        YamlTree::Sequence(s) => YamlTree::Sequence(items_without_null_types(s)),
        YamlTree::Mapping(e) => YamlTree::Mapping(with_nullable(values_without_null_types(e))),
        _ => t,
    }
}

/// The same for every item of a sequence.
pub open spec fn items_without_null_types(s: Seq<YamlTree>) -> Seq<YamlTree>
    decreases s,
{
    Seq::new(
        s.len(),
        |i: int|
            if 0 <= i < s.len() {
                without_null_types(s[i])
            } else {
                YamlTree::Null
            },
    )
}

/// The same for every value of a mapping.
pub open spec fn values_without_null_types(e: Seq<(YamlTree, YamlTree)>) -> Seq<(YamlTree, YamlTree)>
    decreases e,
{
    Seq::new(
        e.len(),
        |i: int|
            if 0 <= i < e.len() {
                (e[i].0, without_null_types(e[i].1))
            } else {
                (YamlTree::Null, YamlTree::Null)
            },
    )
}

/// The example list of a schema, if it has one.
pub open spec fn example_list(entries: Seq<(YamlTree, YamlTree)>) -> Option<Seq<YamlTree>> {
    let k = position(entries, "examples"@);
    if k < entries.len() {
        match entries[k].1 {
            YamlTree::Sequence(examples) => Some(examples),
            _ => None,
        }
    } else {
        None
    }
}

/// Whether a schema has a list of examples.
pub open spec fn has_examples(entries: Seq<(YamlTree, YamlTree)>) -> bool {
    example_list(entries) matches Some(examples) && examples.len() > 0
}

/// A schema with the first of its examples in place of the list.
pub open spec fn with_example(entries: Seq<(YamlTree, YamlTree)>) -> Seq<(YamlTree, YamlTree)> {
    if has_examples(entries) {
        put(entries.remove(position(entries, "examples"@)), "example"@, example_list(entries)->0[0])
    } else {
        entries
    }
}

/// The first example in place of the list, in every schema.
pub open spec fn without_examples(t: YamlTree) -> YamlTree
    decreases t,
{
    match t {
        YamlTree::Sequence(s) => YamlTree::Sequence(items_without_examples(s)),
        YamlTree::Mapping(e) => YamlTree::Mapping(with_example(values_without_examples(e))),
        _ => t,
    }
}

/// The same for every item of a sequence.
pub open spec fn items_without_examples(s: Seq<YamlTree>) -> Seq<YamlTree>
    decreases s,
{
    Seq::new(
        s.len(),
        |i: int|
            if 0 <= i < s.len() {
                without_examples(s[i])
            } else {
                YamlTree::Null
            },
    )
}

/// The same for every value of a mapping.
pub open spec fn values_without_examples(e: Seq<(YamlTree, YamlTree)>) -> Seq<(YamlTree, YamlTree)>
    decreases e,
{
    Seq::new(
        e.len(),
        |i: int|
            if 0 <= i < e.len() {
                (e[i].0, without_examples(e[i].1))
            } else {
                (YamlTree::Null, YamlTree::Null)
            },
    )
}

fn reads_null(yaml: &Yaml) -> (r: bool)
    ensures
        r == is_null_type(yaml@),
    decreases yaml,
{
    match yaml {
        Yaml::Text(s) => same(s.as_str(), "null"),
        Yaml::Tagged(tag, inner) => reads_null(inner),
        _ => false,
    }
}

fn any_null(types: &Vec<Yaml>) -> (r: bool)
    ensures
        r == names_null(item_trees(types@)),
{
    let ghost all = item_trees(types@);
    let mut i: usize = 0;
    while i < types.len()
        invariant
            i <= types.len(),
            all == item_trees(types@),
            forall|j: int| 0 <= j < i ==> !is_null_type(#[trigger] all[j]),
        decreases types.len() - i,
    {
        if reads_null(&types[i]) {
            assert(is_null_type(all[i as int]));
            return true;
        }
        i = i + 1;
    }
    false
}

fn drop_nulls(types: Vec<Yaml>) -> (r: Vec<Yaml>)
    ensures
        item_trees(r@) == non_null(item_trees(types@)),
{
    let ghost all = item_trees(types@);
    let ghost items = types@;
    let mut rest: Vec<Yaml> = Vec::new();
    proof {
        reveal(Seq::filter);
        assert(item_trees(rest@) =~= non_null(all.take(0)));
    }
    for t in it: types
        invariant
            it.seq() == items,
            all == item_trees(items),
            item_trees(rest@) == non_null(all.take(it.index() as int)),
    {
        let null: bool = reads_null(&t);
        let ghost before = rest@;
        proof {
            let k = it.index() as int;
            reveal_with_fuel(Seq::filter, 2);
            assert(all.take(k + 1).drop_last() =~= all.take(k));
            assert(all.take(k + 1).last() == t@);
        }
        if !null {
            rest.push(t);
            assert(item_trees(rest@) =~= item_trees(before).push(t@));
        }
    }
    proof {
        assert(all.take(items.len() as int) =~= all);
    }
    rest
}

fn set_nullable(entries: Vec<(Yaml, Yaml)>) -> (r: Vec<(Yaml, Yaml)>)
    ensures
        entry_trees(r@) == with_nullable(entry_trees(entries@)),
{
    let ghost before = entry_trees(entries@);
    let mut entries: Vec<(Yaml, Yaml)> = entries;
    let k: usize = find_key(&entries, "type");
    if k == entries.len() {
        return entries;
    }
    let null: bool = match &entries[k].1 {
        Yaml::Sequence(types) => {
            proof {
                lemma_sequence_view(*types);
            }
            any_null(types)
        },
        _ => false,
    };
    if !null {
        return entries;
    }
    let (key, value): (Yaml, Yaml) = entries.remove(k);
    let new_type: Yaml = match value {
        Yaml::Sequence(types) => {
            proof {
                lemma_sequence_view(types);
            }
            let mut rest: Vec<Yaml> = drop_nulls(types);
            if rest.len() == 1 {
                let ghost trees = item_trees(rest@);
                let only: Yaml = rest.remove(0);
                assert(trees[0] == only@);
                only
            } else {
                proof {
                    lemma_sequence_view(rest);
                }
                Yaml::Sequence(rest)
            }
        },
        other => other,
    };
    entries.insert(k, (key, new_type));
    proof {
        assert(entry_trees(entries@) =~= put(
            before,
            "type"@,
            type_of(non_null(type_list(before)->0)),
        ));
    }
    put_key(&mut entries, "nullable", Yaml::Bool(true));
    entries
}

fn strip_null_types(value: Yaml) -> (r: Yaml)
    ensures
        r@ == without_null_types(value@),
    decreases value,
{
    match value {
        Yaml::Sequence(items) => {
            let ghost all = items@;
            let mut v: Vec<Yaml> = Vec::new();
            for item in it: items
                invariant
                    it.seq() == all,
                    value == Yaml::Sequence(items),
                    all == items@,
                    v@.len() == it.index(),
                    forall|i: int|
                        0 <= i < it.index() ==> (#[trigger] v@[i])@ == without_null_types(all[i]@),
            {
                proof {
                    assert(value->Sequence_0 == items);
                    assert(decreases_to!(value => value->Sequence_0));
                    assert(decreases_to!(items => items@));
                    assert(decreases_to!(items@ => items@[it.index() as int]));
                }
                v.push(strip_null_types(item));
            }
            let r: Yaml = Yaml::Sequence(v);
            assert(r@->Sequence_0 =~= without_null_types(value@)->Sequence_0);
            r
        },
        Yaml::Mapping(items) => {
            let ghost all = items@;
            let mut v: Vec<(Yaml, Yaml)> = Vec::new();
            for item in it: items
                invariant
                    it.seq() == all,
                    value == Yaml::Mapping(items),
                    all == items@,
                    v@.len() == it.index(),
                    forall|i: int|
                        0 <= i < it.index() ==> (#[trigger] v@[i]).0@ == all[i].0@ && v@[i].1@
                            == without_null_types(all[i].1@),
            {
                let (key, inner): (Yaml, Yaml) = item;
                proof {
                    let entry = items@[it.index() as int];
                    assert(value->Mapping_0 == items);
                    assert(decreases_to!(value => value->Mapping_0));
                    assert(decreases_to!(items => items@));
                    assert(decreases_to!(items@ => entry));
                    assert(decreases_to!(entry => entry.1));
                }
                v.push((key, strip_null_types(inner)));
            }
            proof {
                let e = value@->Mapping_0;
                assert(entry_trees(v@) =~= values_without_null_types(e));
            }
            let w: Vec<(Yaml, Yaml)> = set_nullable(v);
            proof {
                lemma_mapping_view(w);
            }
            Yaml::Mapping(w)
        },
        Yaml::Null => Yaml::Null,
        Yaml::Bool(b) => Yaml::Bool(b),
        Yaml::Number(n) => Yaml::Number(n),
        Yaml::Text(s) => Yaml::Text(s),
        Yaml::Tagged(tag, inner) => Yaml::Tagged(tag, inner),
    }
}

/// Puts `nullable` in place of the null type, in every schema.
pub fn downconvert_nullable(value: &mut Yaml)
    ensures
        final(value)@ == without_null_types(old(value)@),
{
    let mut taken: Yaml = Yaml::Null;
    std::mem::swap(value, &mut taken);
    *value = strip_null_types(taken);
}

fn set_example(entries: Vec<(Yaml, Yaml)>) -> (r: Vec<(Yaml, Yaml)>)
    ensures
        entry_trees(r@) == with_example(entry_trees(entries@)),
{
    let ghost before = entry_trees(entries@);
    let mut entries: Vec<(Yaml, Yaml)> = entries;
    let k: usize = find_key(&entries, "examples");
    if k == entries.len() {
        return entries;
    }
    let some: bool = match &entries[k].1 {
        Yaml::Sequence(examples) => {
            proof {
                lemma_sequence_view(*examples);
            }
            examples.len() > 0
        },
        _ => false,
    };
    if !some {
        return entries;
    }
    let (key, value): (Yaml, Yaml) = entries.remove(k);
    let first: Yaml = match value {
        Yaml::Sequence(mut examples) => {
            proof {
                lemma_sequence_view(examples);
            }
            let ghost trees = item_trees(examples@);
            let first: Yaml = examples.remove(0);
            assert(trees[0] == first@);
            first
        },
        other => other,
    };
    proof {
        assert(entry_trees(entries@) =~= before.remove(k as int));
    }
    put_key(&mut entries, "example", first);
    entries
}

fn fold_examples(value: Yaml) -> (r: Yaml)
    ensures
        r@ == without_examples(value@),
    decreases value,
{
    match value {
        Yaml::Sequence(items) => {
            let ghost all = items@;
            let mut v: Vec<Yaml> = Vec::new();
            for item in it: items
                invariant
                    it.seq() == all,
                    value == Yaml::Sequence(items),
                    all == items@,
                    v@.len() == it.index(),
                    forall|i: int|
                        0 <= i < it.index() ==> (#[trigger] v@[i])@ == without_examples(all[i]@),
            {
                proof {
                    assert(value->Sequence_0 == items);
                    assert(decreases_to!(value => value->Sequence_0));
                    assert(decreases_to!(items => items@));
                    assert(decreases_to!(items@ => items@[it.index() as int]));
                }
                v.push(fold_examples(item));
            }
            let r: Yaml = Yaml::Sequence(v);
            assert(r@->Sequence_0 =~= without_examples(value@)->Sequence_0);
            r
        },
        Yaml::Mapping(items) => {
            let ghost all = items@;
            let mut v: Vec<(Yaml, Yaml)> = Vec::new();
            for item in it: items
                invariant
                    it.seq() == all,
                    value == Yaml::Mapping(items),
                    all == items@,
                    v@.len() == it.index(),
                    forall|i: int|
                        0 <= i < it.index() ==> (#[trigger] v@[i]).0@ == all[i].0@ && v@[i].1@
                            == without_examples(all[i].1@),
            {
                let (key, inner): (Yaml, Yaml) = item;
                proof {
                    let entry = items@[it.index() as int];
                    assert(value->Mapping_0 == items);
                    assert(decreases_to!(value => value->Mapping_0));
                    assert(decreases_to!(items => items@));
                    assert(decreases_to!(items@ => entry));
                    assert(decreases_to!(entry => entry.1));
                }
                v.push((key, fold_examples(inner)));
            }
            proof {
                let e = value@->Mapping_0;
                assert(entry_trees(v@) =~= values_without_examples(e));
            }
            let w: Vec<(Yaml, Yaml)> = set_example(v);
            proof {
                lemma_mapping_view(w);
            }
            Yaml::Mapping(w)
        },
        Yaml::Null => Yaml::Null,
        Yaml::Bool(b) => Yaml::Bool(b),
        Yaml::Number(n) => Yaml::Number(n),
        Yaml::Text(s) => Yaml::Text(s),
        Yaml::Tagged(tag, inner) => Yaml::Tagged(tag, inner),
    }
}

/// Folds every schema's `examples` list into the singular `example`. Only the
/// first entry survives the fold.
pub fn downconvert_examples(value: &mut Yaml)
    ensures
        final(value)@ == without_examples(old(value)@),
{
    let mut taken: Yaml = Yaml::Null;
    std::mem::swap(value, &mut taken);
    *value = fold_examples(taken);
}

} // verus!
