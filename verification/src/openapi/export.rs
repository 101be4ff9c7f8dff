//! The export: the generated document, read, converted and written.

use vstd::prelude::*;
use super::dialect::{
    downconvert_examples, downconvert_nullable, without_examples, without_null_types,
};
use super::laws::{
    folding_keeps_keys_plain, lemma_put_is_plain, nullability_keeps_keys_plain,
};
use super::yaml::{
    entry_trees, find_key, from_value, into_value, is_plain, lemma_mapping_view, lemma_position,
    plain_keys, position, put, put_key, Yaml, YamlTree,
};
use crate::outside::{
    value_tree, yaml_integer, yaml_number, yaml_parse, yaml_print, yaml_text, yaml_tree,
};

verus! {

/// The version field of the exported document.
pub const DIALECT: &'static str = "3.0.3";

/// Why a document cannot be exported.
pub enum ExportError {
    /// The text is no YAML.
    Unreadable(serde_norway::Error),
    /// The document, or its `components`, is no mapping.
    NotADocument,
    /// The converted document cannot be written.
    Unwritable(serde_norway::Error),
}

/// A mapping, tags aside.
pub open spec fn holds_mapping(t: YamlTree) -> bool
    decreases t,
{
    match t {
        YamlTree::Mapping(e) => true,
        YamlTree::Tagged(tag, inner) => holds_mapping(*inner),
        _ => false,
    }
}

/// Something under which a key can be put: a mapping, tags aside, or nothing
/// yet.
pub open spec fn takes_keys(t: YamlTree) -> bool {
    t is Null || holds_mapping(t)
}

/// The value under a key, tags aside; null when there is none.
pub open spec fn under(t: YamlTree, key: Seq<char>) -> YamlTree
    decreases t,
{
    match t {
        YamlTree::Mapping(e) => if position(e, key) < e.len() {
            e[position(e, key)].1
        } else {
            YamlTree::Null
        },
        YamlTree::Tagged(tag, inner) => under(*inner, key),
        _ => YamlTree::Null,
    }
}

/// A mapping, tags aside, with `value` under the key.
pub open spec fn mapping_with(t: YamlTree, key: Seq<char>, value: YamlTree) -> YamlTree
    decreases t,
{
    match t {
        YamlTree::Mapping(e) => YamlTree::Mapping(put(e, key, value)),
        YamlTree::Tagged(tag, inner) => YamlTree::Tagged(
            tag,
            Box::new(mapping_with(*inner, key, value)),
        ),
        _ => t,
    }
}

/// `t` with `value` under the key. Nothing yet counts as an empty mapping.
pub open spec fn with_key(t: YamlTree, key: Seq<char>, value: YamlTree) -> YamlTree {
    if t is Null {
        YamlTree::Mapping(seq![(YamlTree::Text(key), value)])
    } else {
        mapping_with(t, key, value)
    }
}

fn accepts_keys(yaml: &Yaml) -> (r: bool)
    ensures
        r == takes_keys(yaml@),
{
    match yaml {
        Yaml::Null => true,
        _ => has_mapping(yaml),
    }
}

fn has_mapping(yaml: &Yaml) -> (r: bool)
    ensures
        r == holds_mapping(yaml@),
    decreases yaml,
{
    match yaml {
        Yaml::Mapping(entries) => true,
        Yaml::Tagged(tag, inner) => has_mapping(inner),
        _ => false,
    }
}

fn set_in_mapping(yaml: Yaml, key: &str, value: Yaml) -> (r: Yaml)
    requires
        holds_mapping(yaml@),
    ensures
        r@ == mapping_with(yaml@, key@, value@),
    decreases yaml,
{
    match yaml {
        Yaml::Mapping(entries) => {
            let mut entries: Vec<(Yaml, Yaml)> = entries;
            proof {
                lemma_mapping_view(entries);
            }
            put_key(&mut entries, key, value);
            proof {
                lemma_mapping_view(entries);
            }
            Yaml::Mapping(entries)
        },
        Yaml::Tagged(tag, inner) => Yaml::Tagged(tag, Box::new(set_in_mapping(*inner, key, value))),
        Yaml::Null => Yaml::Null,
        Yaml::Bool(b) => Yaml::Bool(b),
        Yaml::Number(n) => Yaml::Number(n),
        Yaml::Text(s) => Yaml::Text(s),
        Yaml::Sequence(items) => Yaml::Sequence(items),
    }
}

fn set_key(yaml: Yaml, key: &str, value: Yaml) -> (r: Yaml)
    requires
        takes_keys(yaml@),
    ensures
        r@ == with_key(yaml@, key@, value@),
{
    match yaml {
        Yaml::Null => {
            let entries: Vec<(Yaml, Yaml)> = vec![(Yaml::Text(key.to_owned()), value)];
            proof {
                lemma_mapping_view(entries);
                assert(entry_trees(entries@) =~= seq![(YamlTree::Text(key@), value@)]);
            }
            Yaml::Mapping(entries)
        },
        other => set_in_mapping(other, key, value),
    }
}

fn take_key(yaml: &mut Yaml, key: &str) -> (r: Yaml)
    requires
        holds_mapping(old(yaml)@),
    ensures
        r@ == under(old(yaml)@, key@),
        holds_mapping(final(yaml)@),
        forall|value: YamlTree|
            mapping_with(final(yaml)@, key@, value) == #[trigger] mapping_with(
                old(yaml)@,
                key@,
                value,
            ),
    decreases *old(yaml),
{
    let mut taken: Yaml = Yaml::Null;
    std::mem::swap(yaml, &mut taken);
    match taken {
        Yaml::Mapping(entries) => {
            let mut entries: Vec<(Yaml, Yaml)> = entries;
            let ghost before = entry_trees(entries@);
            proof {
                lemma_mapping_view(entries);
                lemma_position(before, key@);
            }
            let k: usize = find_key(&entries, key);
            let value: Yaml = if k < entries.len() {
                let (kept, value): (Yaml, Yaml) = entries.remove(k);
                entries.insert(k, (kept, Yaml::Null));
                value
            } else {
                Yaml::Null
            };
            let ghost after = entry_trees(entries@);
            proof {
                lemma_mapping_view(entries);
                if k < before.len() {
                    assert(after =~= before.update(k as int, (before[k as int].0, YamlTree::Null)));
                    super::yaml::lemma_position_is(after, key@, k as int);
                } else {
                    assert(after =~= before);
                }
            }
            *yaml = Yaml::Mapping(entries);
            proof {
                assert forall|v: YamlTree|
                    mapping_with(yaml@, key@, v) == #[trigger] mapping_with(
                        old(yaml)@,
                        key@,
                        v,
                    ) by {
                    assert(put(after, key@, v) =~= put(before, key@, v));
                }
            }
            value
        },
        Yaml::Tagged(tag, inner) => {
            let mut inner: Yaml = *inner;
            let ghost before = inner@;
            let value: Yaml = take_key(&mut inner, key);
            let ghost after = inner@;
            *yaml = Yaml::Tagged(tag, Box::new(inner));
            proof {
                assert forall|v: YamlTree|
                    mapping_with(yaml@, key@, v) == #[trigger] mapping_with(
                        old(yaml)@,
                        key@,
                        v,
                    ) by {
                    assert(mapping_with(after, key@, v) == mapping_with(before, key@, v));
                }
            }
            value
        },
        other => {
            *yaml = other;
            Yaml::Null
        },
    }
}

/// A text under a key.
pub open spec fn text_entry(key: Seq<char>, text: Seq<char>) -> (YamlTree, YamlTree) {
    (YamlTree::Text(key), YamlTree::Text(text))
}

/// A required path parameter whose schema is another component.
pub open spec fn reference_parameter(name: Seq<char>, reference: Seq<char>) -> YamlTree {
    YamlTree::Mapping(
        seq![
            text_entry("name"@, name),
            text_entry("in"@, "path"@),
            (YamlTree::Text("required"@), YamlTree::Bool(true)),
            (
                YamlTree::Text("schema"@),
                YamlTree::Mapping(seq![text_entry("$ref"@, reference)]),
            ),
        ],
    )
}

/// The path parameter that names a subscriber.
pub open spec fn subscriber_parameter() -> YamlTree {
    YamlTree::Mapping(
        seq![
            text_entry("name"@, "subscriber_id"@),
            text_entry("in"@, "path"@),
            (YamlTree::Text("required"@), YamlTree::Bool(true)),
            (
                YamlTree::Text("schema"@),
                YamlTree::Mapping(
                    seq![
                        text_entry("type"@, "string"@),
                        (
                            YamlTree::Text("maxLength"@),
                            YamlTree::Number(yaml_integer(255)),
                        ),
                    ],
                ),
            ),
            text_entry(
                "description"@,
                "Customer-provided subscriber id (e.g. `usr_42`)."@,
            ),
        ],
    )
}

/// The reusable path parameters.
pub open spec fn parameters_tree() -> YamlTree {
    YamlTree::Mapping(
        seq![
            (YamlTree::Text("SubscriberIdPath"@), subscriber_parameter()),
            (
                YamlTree::Text("NotificationIdPath"@),
                reference_parameter("id"@, "#/components/schemas/NotificationId"@),
            ),
            (
                YamlTree::Text("BroadcastIdPath"@),
                reference_parameter("id"@, "#/components/schemas/BroadcastId"@),
            ),
        ],
    )
}

fn text(s: &str) -> (r: Yaml)
    ensures
        r@ == YamlTree::Text(s@),
{
    Yaml::Text(s.to_owned())
}

fn entry(key: &str, value: Yaml) -> (r: (Yaml, Yaml))
    ensures
        (r.0@, r.1@) == (YamlTree::Text(key@), value@),
{
    (text(key), value)
}

fn reference(name: &str, target: &str) -> (r: Yaml)
    ensures
        r@ == reference_parameter(name@, target@),
{
    let schema: Vec<(Yaml, Yaml)> = vec![entry("$ref", text(target))];
    proof {
        lemma_mapping_view(schema);
        assert(entry_trees(schema@) =~= seq![text_entry("$ref"@, target@)]);
    }
    let entries: Vec<(Yaml, Yaml)> = vec![
        entry("name", text(name)),
        entry("in", text("path")),
        entry("required", Yaml::Bool(true)),
        entry("schema", Yaml::Mapping(schema)),
    ];
    proof {
        lemma_mapping_view(entries);
        assert(entry_trees(entries@) =~= reference_parameter(name@, target@)->Mapping_0);
    }
    Yaml::Mapping(entries)
}

fn subscriber() -> (r: Yaml)
    ensures
        r@ == subscriber_parameter(),
{
    let schema: Vec<(Yaml, Yaml)> = vec![
        entry("type", text("string")),
        entry("maxLength", Yaml::Number(yaml_number(255))),
    ];
    proof {
        lemma_mapping_view(schema);
        assert(entry_trees(schema@) =~= seq![
            text_entry("type"@, "string"@),
            (YamlTree::Text("maxLength"@), YamlTree::Number(yaml_integer(255))),
        ]);
    }
    let entries: Vec<(Yaml, Yaml)> = vec![
        entry("name", text("subscriber_id")),
        entry("in", text("path")),
        entry("required", Yaml::Bool(true)),
        entry("schema", Yaml::Mapping(schema)),
        entry("description", text("Customer-provided subscriber id (e.g. `usr_42`).")),
    ];
    proof {
        lemma_mapping_view(entries);
        assert(entry_trees(entries@) =~= subscriber_parameter()->Mapping_0);
    }
    Yaml::Mapping(entries)
}

/// The reusable path parameters of the document.
pub fn contract_parameters() -> (r: Yaml)
    ensures
        r@ == parameters_tree(),
{
    let entries: Vec<(Yaml, Yaml)> = vec![
        entry("SubscriberIdPath", subscriber()),
        entry("NotificationIdPath", reference("id", "#/components/schemas/NotificationId")),
        entry("BroadcastIdPath", reference("id", "#/components/schemas/BroadcastId")),
    ];
    proof {
        lemma_mapping_view(entries);
        assert(entry_trees(entries@) =~= parameters_tree()->Mapping_0);
    }
    Yaml::Mapping(entries)
}

/// The document in the older dialect, without the reusable parameters.
pub open spec fn converted(t: YamlTree) -> YamlTree {
    without_examples(
        without_null_types(with_key(t, "openapi"@, YamlTree::Text(DIALECT@))),
    )
}

/// The exported document.
pub open spec fn contract_tree(t: YamlTree) -> YamlTree {
    with_key(
        converted(t),
        "components"@,
        with_key(under(converted(t), "components"@), "parameters"@, parameters_tree()),
    )
}

/// Whether a document can be exported: it, and its components, take keys.
pub open spec fn is_exportable(t: YamlTree) -> bool {
    takes_keys(t) && takes_keys(under(converted(t), "components"@))
}

/// A document that takes keys still does in the older dialect.
pub proof fn lemma_converted_holds_mapping(t: YamlTree)
    requires
        takes_keys(t),
    ensures
        holds_mapping(converted(t)),
    decreases t,
{
    if let YamlTree::Tagged(tag, inner) = t {
        lemma_mapping_with_holds(t, "openapi"@, YamlTree::Text(DIALECT@));
    }
}

proof fn lemma_mapping_with_holds(t: YamlTree, key: Seq<char>, value: YamlTree)
    requires
        holds_mapping(t),
    ensures
        holds_mapping(mapping_with(t, key, value)),
    decreases t,
{
    if let YamlTree::Tagged(tag, inner) = t {
        lemma_mapping_with_holds(*inner, key, value);
    }
}

fn convert(doc: Yaml) -> (r: Yaml)
    requires
        takes_keys(doc@),
    ensures
        r@ == converted(doc@),
{
    let mut doc: Yaml = set_key(doc, "openapi", text(DIALECT));
    downconvert_nullable(&mut doc);
    downconvert_examples(&mut doc);
    doc
}

/// Turns a document into the one that is exported, if it can be.
pub fn contract_document(doc: Yaml) -> (r: Result<Yaml, ExportError>)
    ensures
        match r {
            Ok(out) => is_exportable(doc@) && out@ == contract_tree(doc@),
            Err(e) => !is_exportable(doc@) && e is NotADocument,
        },
{
    if !accepts_keys(&doc) {
        return Err(ExportError::NotADocument);
    }
    proof {
        lemma_converted_holds_mapping(doc@);
    }
    let mut out: Yaml = convert(doc);
    let ghost mid = out@;
    let components: Yaml = take_key(&mut out, "components");
    if !accepts_keys(&components) {
        return Err(ExportError::NotADocument);
    }
    let filled: Yaml = set_key(components, "parameters", contract_parameters());
    proof {
        assert(mapping_with(out@, "components"@, filled@) == mapping_with(
            mid,
            "components"@,
            filled@,
        ));
    }
    Ok(set_in_mapping(out, "components", filled))
}

proof fn lemma_with_key_is_plain(t: YamlTree, key: Seq<char>, value: YamlTree)
    requires
        is_plain(t),
        is_plain(value),
    ensures
        is_plain(with_key(t, key, value)),
        is_plain(mapping_with(t, key, value)),
    decreases t,
{
    match t {
        YamlTree::Mapping(e) => lemma_put_is_plain(e, key, value),
        YamlTree::Tagged(tag, inner) => lemma_with_key_is_plain(*inner, key, value),
        _ => {},
    }
}

proof fn lemma_under_is_plain(t: YamlTree, key: Seq<char>)
    requires
        is_plain(t),
    ensures
        is_plain(under(t, key)),
    decreases t,
{
    match t {
        YamlTree::Mapping(e) => {
            lemma_position(e, key);
            if position(e, key) < e.len() {
                assert(is_plain(e[position(e, key)].1));
            }
        },
        YamlTree::Tagged(tag, inner) => lemma_under_is_plain(*inner, key),
        _ => {},
    }
}

proof fn lemma_parameters_are_plain()
    ensures
        is_plain(parameters_tree()),
{
    reveal_with_fuel(is_plain, 3);
    reveal_strlit("name");
    reveal_strlit("in");
    reveal_strlit("required");
    reveal_strlit("schema");
    reveal_strlit("description");
    reveal_strlit("type");
    reveal_strlit("maxLength");
    reveal_strlit("$ref");
    reveal_strlit("SubscriberIdPath");
    reveal_strlit("NotificationIdPath");
    reveal_strlit("BroadcastIdPath");
    assert("name"@.len() == 4 && "in"@.len() == 2 && "required"@.len() == 8 && "schema"@.len() == 6
        && "description"@.len() == 11 && "type"@.len() == 4 && "maxLength"@.len() == 9
        && "SubscriberIdPath"@.len() == 16 && "NotificationIdPath"@.len() == 18
        && "BroadcastIdPath"@.len() == 15);
    assert forall|name: Seq<char>, target: Seq<char>| is_plain(
        #[trigger] reference_parameter(name, target),
    ) by {
        let e = reference_parameter(name, target)->Mapping_0;
        let schema = e[3].1->Mapping_0;
        assert(plain_keys(schema));
        assert(is_plain(e[3].1));
        assert(plain_keys(e));
    }
    assert(is_plain(subscriber_parameter())) by {
        let e = subscriber_parameter()->Mapping_0;
        let schema = e[3].1->Mapping_0;
        assert(plain_keys(schema));
        assert(is_plain(e[3].1));
        assert(plain_keys(e));
    }
    let all = parameters_tree()->Mapping_0;
    assert(plain_keys(all));
    assert(is_plain(all[0].1) && is_plain(all[1].1) && is_plain(all[2].1));
}

/// The export keeps the keys of every mapping plain.
pub proof fn the_export_keeps_keys_plain(t: YamlTree)
    requires
        is_plain(t),
    ensures
        is_plain(contract_tree(t)),
{
    let versioned = with_key(t, "openapi"@, YamlTree::Text(DIALECT@));
    lemma_with_key_is_plain(t, "openapi"@, YamlTree::Text(DIALECT@));
    nullability_keeps_keys_plain(versioned);
    folding_keeps_keys_plain(without_null_types(versioned));
    lemma_under_is_plain(converted(t), "components"@);
    lemma_parameters_are_plain();
    lemma_with_key_is_plain(under(converted(t), "components"@), "parameters"@, parameters_tree());
    lemma_with_key_is_plain(
        converted(t),
        "components"@,
        with_key(under(converted(t), "components"@), "parameters"@, parameters_tree()),
    );
}

/// Exports the generated document in the older dialect. What is written is
/// stated for documents whose mappings have texts for keys, no two alike, as
/// the generated document has.
pub fn to_contract_yaml(document: &str) -> (r: Result<String, ExportError>)
    ensures
        match r {
            Ok(out) => yaml_tree(document@) matches Some(t) && is_exportable(t) && (is_plain(t)
                ==> yaml_text(contract_tree(t)) == Some(out@)),
            Err(ExportError::Unreadable(e)) => yaml_tree(document@) is None,
            Err(ExportError::NotADocument) => yaml_tree(document@) matches Some(t)
                && !is_exportable(t),
            Err(ExportError::Unwritable(e)) => yaml_tree(document@) matches Some(t)
                && is_exportable(t) && (is_plain(t) ==> yaml_text(contract_tree(t)) is None),
        },
{
    let value: serde_norway::Value = match yaml_parse(document) {
        Ok(value) => value,
        Err(e) => {
            return Err(ExportError::Unreadable(e));
        },
    };
    let ghost t = value_tree(value);
    let doc: Yaml = from_value(value);
    let out: Yaml = match contract_document(doc) {
        Ok(out) => out,
        Err(e) => {
            return Err(e);
        },
    };
    proof {
        if is_plain(t) {
            the_export_keeps_keys_plain(t);
        }
    }
    let printable: serde_norway::Value = into_value(out);
    match yaml_print(&printable) {
        Ok(text) => Ok(text),
        Err(e) => Err(ExportError::Unwritable(e)),
    }
}

} // verus!
