//! JSON values and JSON Patches, as `serde_json` and `json_patch` hold them.

use crate::text;
use vstd::prelude::*;

verus! {

/// What a JSON value is.
pub ghost enum JsonModel {
    /// `null`, a boolean or a number.
    Other,
    Text(Seq<char>),
    List(Seq<JsonModel>),
    Object(Map<Seq<char>, JsonModel>),
}

#[verifier::external_type_specification]
#[verifier::external_body]
pub struct ExValue(serde_json::Value);

#[verifier::external_type_specification]
#[verifier::external_body]
pub struct ExJsonError(serde_json::Error);

#[verifier::external_type_specification]
#[verifier::external_body]
pub struct ExPatchOperation(json_patch::PatchOperation);

#[verifier::external_type_specification]
#[verifier::external_body]
pub struct ExPatch(json_patch::Patch);

/// What a `serde_json::Value` holds.
pub uninterp spec fn json_model(value: serde_json::Value) -> JsonModel;

/// The operations that a `json_patch::Patch` holds, in order, each as the JSON
/// object it is written as.
pub uninterp spec fn patch_model(patch: json_patch::Patch) -> Seq<JsonModel>;

/// What a list of JSON values holds.
pub open spec fn json_models(values: Seq<serde_json::Value>) -> Seq<JsonModel> {
    values.map_values(|v: serde_json::Value| json_model(v))
}

/// The object that a list of fields makes; of two fields with one name the later
/// counts.
pub open spec fn fields_model(fields: Seq<(String, serde_json::Value)>) -> Map<
    Seq<char>,
    JsonModel,
>
    decreases fields.len(),
{
    if fields.len() == 0 {
        Map::empty()
    } else {
        fields_model(fields.drop_last()).insert(fields.last().0@, json_model(fields.last().1))
    }
}

/// `serde_json::Value::String` is the JSON string with the characters of the text.
#[verifier::external_body]
pub(crate) fn json_text(content: &str) -> (r: serde_json::Value)
    ensures
        json_model(r) == JsonModel::Text(content@),
{
    serde_json::Value::String(content.to_string())
}

/// `serde_json::Value::Array` is the JSON array of the values, in order.
#[verifier::external_body]
pub(crate) fn json_list(items: Vec<serde_json::Value>) -> (r: serde_json::Value)
    ensures
        json_model(r) == JsonModel::List(json_models(items@)),
{
    serde_json::Value::Array(items)
}

/// `serde_json::Value::Object`, over a `serde_json::Map` collected from the fields,
/// is the JSON object that holds each of them; a later field replaces an earlier
/// one of the same name.
#[verifier::external_body]
pub(crate) fn json_object(fields: Vec<(String, serde_json::Value)>) -> (r: serde_json::Value)
    ensures
        json_model(r) == JsonModel::Object(fields_model(fields@)),
{
    serde_json::Value::Object(fields.into_iter().collect())
}

/// `serde_json::Value::get` with a text: what an object holds under that name, and
/// nothing for a value that is no object.
#[verifier::external_body]
pub(crate) fn json_member<'a>(value: &'a serde_json::Value, name: &str) -> (r: Option<
    &'a serde_json::Value,
>)
    ensures
        match json_model(*value) {
            JsonModel::Object(fields) => match r {
                Some(member) => fields.contains_key(name@) && json_model(*member) == fields[name@],
                None => !fields.contains_key(name@),
            },
            _ => r is None,
        },
{
    value.get(name)
}

/// `serde_json::Value::as_str`: the characters of a JSON string, and nothing for any
/// other value.
#[verifier::external_body]
pub(crate) fn json_as_text(value: &serde_json::Value) -> (r: Option<&str>)
    ensures
        match json_model(*value) {
            JsonModel::Text(content) => r matches Some(s) && s@ == content,
            _ => r is None,
        },
{
    value.as_str()
}

/// A JSON Pointer that is not empty: it starts with `/`, and every `~` in it is
/// followed by `0` or `1`.
pub open spec fn is_pointer(path: Seq<char>) -> bool {
    &&& path.len() > 0
    &&& path[0] == '/'
    &&& forall|i: int|
        0 <= i < path.len() && #[trigger] path[i] == '~' ==> i + 1 < path.len() && (path[i + 1]
            == '0' || path[i + 1] == '1')
}

/// A patch operation that carries a value.
pub open spec fn value_op(op: Seq<char>, path: Seq<char>, value: JsonModel) -> JsonModel {
    JsonModel::Object(
        Map::empty().insert("op"@, JsonModel::Text(op)).insert("path"@, JsonModel::Text(path)).insert(
            "value"@,
            value,
        ),
    )
}

/// The operation that refuses the whole patch unless `path` holds `value`.
pub open spec fn test_op(path: Seq<char>, value: JsonModel) -> JsonModel {
    value_op("test"@, path, value)
}

/// The operation that sets `path` to `value`.
pub open spec fn add_op(path: Seq<char>, value: JsonModel) -> JsonModel {
    value_op("add"@, path, value)
}

/// The operation that sets `path`, which has to exist, to `value`.
pub open spec fn replace_op(path: Seq<char>, value: JsonModel) -> JsonModel {
    value_op("replace"@, path, value)
}

/// The operation that takes `path`, which has to exist, away.
pub open spec fn remove_op(path: Seq<char>) -> JsonModel {
    JsonModel::Object(
        Map::empty().insert("op"@, JsonModel::Text("remove"@)).insert(
            "path"@,
            JsonModel::Text(path),
        ),
    )
}

/// An operation of the four kinds above, on a JSON Pointer.
pub open spec fn is_operation(op: JsonModel) -> bool {
    exists|path: Seq<char>, value: JsonModel|
        #![trigger value_op("add"@, path, value)]
        is_pointer(path) && (op == test_op(path, value) || op == add_op(path, value) || op
            == replace_op(path, value) || op == remove_op(path))
}

/// `serde_json::from_value` into a `json_patch::Patch`: a list of test, add, replace
/// and remove operations, each on a JSON Pointer, is a patch of these operations in
/// this order. Of a list with any other element in it nothing is claimed.
#[verifier::external_body]
pub(crate) fn patch_from(ops: Vec<serde_json::Value>) -> (r: Result<
    json_patch::Patch,
    serde_json::Error,
>)
    ensures
        (forall|i: int| 0 <= i < ops@.len() ==> is_operation(#[trigger] json_models(ops@)[i]))
            ==> r is Ok && patch_model(r->Ok_0) == json_models(ops@),
{
    serde_json::from_value(serde_json::Value::Array(ops))
}

/// Builds an operation that carries a value.
fn operation(op: &str, path: &str, value: serde_json::Value) -> (r: serde_json::Value)
    ensures
        json_model(r) == value_op(op@, path@, json_model(value)),
{
    let mut fields: Vec<(String, serde_json::Value)> = Vec::new();
    fields.push(("op".to_string(), json_text(op)));
    fields.push(("path".to_string(), json_text(path)));
    fields.push(("value".to_string(), value));
    proof {
        reveal_with_fuel(fields_model, 4);
        assert(fields@.drop_last().drop_last().drop_last() =~= Seq::empty());
    }
    json_object(fields)
}

/// Builds the operation that refuses the whole patch unless `path` holds `value`.
pub fn test_operation(path: &str, value: serde_json::Value) -> (r: serde_json::Value)
    ensures
        json_model(r) == test_op(path@, json_model(value)),
{
    operation("test", path, value)
}

/// Builds the operation that sets `path` to `value`.
pub fn add_operation(path: &str, value: serde_json::Value) -> (r: serde_json::Value)
    ensures
        json_model(r) == add_op(path@, json_model(value)),
{
    operation("add", path, value)
}

/// Builds the operation that sets `path`, which has to exist, to `value`.
pub fn replace_operation(path: &str, value: serde_json::Value) -> (r: serde_json::Value)
    ensures
        json_model(r) == replace_op(path@, json_model(value)),
{
    operation("replace", path, value)
}

/// Builds the operation that takes `path`, which has to exist, away.
pub fn remove_operation(path: &str) -> (r: serde_json::Value)
    ensures
        json_model(r) == remove_op(path@),
{
    let mut fields: Vec<(String, serde_json::Value)> = Vec::new();
    fields.push(("op".to_string(), json_text("remove")));
    fields.push(("path".to_string(), json_text(path)));
    proof {
        reveal_with_fuel(fields_model, 3);
        assert(fields@.drop_last().drop_last() =~= Seq::empty());
    }
    json_object(fields)
}

/// One character as a JSON Pointer token writes it: `~` and `/` have a meaning of
/// their own there.
pub open spec fn escaped_char(c: char) -> Seq<char> {
    if c == '~' {
        seq!['~', '0']
    } else if c == '/' {
        seq!['~', '1']
    } else {
        seq![c]
    }
}

/// A text as a JSON Pointer token.
pub open spec fn escaped(token: Seq<char>) -> Seq<char>
    decreases token.len(),
{
    if token.len() == 0 {
        Seq::empty()
    } else {
        escaped(token.drop_last()) + escaped_char(token.last())
    }
}

/// The text that a JSON Pointer token stands for.
pub open spec fn unescaped(token: Seq<char>) -> Seq<char>
    decreases token.len(),
{
    if token.len() == 0 {
        Seq::empty()
    } else if token.len() >= 2 && token[token.len() - 2] == '~' {
        unescaped(token.take(token.len() - 2)).push(
            if token.last() == '0' {
                '~'
            } else {
                '/'
            },
        )
    } else {
        unescaped(token.drop_last()).push(token.last())
    }
}

/// `~` and `/` have a meaning of their own in a JSON Pointer (RFC 6901).
pub fn escape_pointer(token: &str) -> (r: String)
    ensures
        r@ == escaped(token@),
{
    let cs: Vec<char> = text::chars_of(token);
    let mut r: String = String::new();
    let mut i: usize = 0;
    while i < cs.len()
        invariant
            i <= cs@.len(),
            cs@ == token@,
            r@ == escaped(token@.take(i as int)),
        decreases cs@.len() - i,
    {
        proof {
            assert(token@.take(i + 1).drop_last() =~= token@.take(i as int));
            assert(token@.take(i + 1).last() == cs@[i as int]);
        }
        let ghost before = r@;
        if cs[i] == '~' {
            r.push('~');
            r.push('0');
        } else if cs[i] == '/' {
            r.push('~');
            r.push('1');
        } else {
            r.push(cs[i]);
        }
        assert(r@ =~= before + escaped_char(cs@[i as int]));
        i = i + 1;
    }
    assert(token@.take(token@.len() as int) =~= token@);
    r
}

/// In an escaped text every `~` is followed by `0` or `1`, no `/` is left, and the
/// text does not end in `~`.
proof fn lemma_escaped_is_a_token(token: Seq<char>)
    ensures
        forall|i: int|
            0 <= i < escaped(token).len() ==> #[trigger] escaped(token)[i] != '/' && (escaped(
                token,
            )[i] == '~' ==> i + 1 < escaped(token).len() && (escaped(token)[i + 1] == '0'
                || escaped(token)[i + 1] == '1')),
    decreases token.len(),
{
    if token.len() > 0 {
        lemma_escaped_is_a_token(token.drop_last());
        let head = escaped(token.drop_last());
        let all = escaped(token);
        let tail = escaped_char(token.last());
        assert(all =~= head + tail);
        assert forall|i: int| 0 <= i < all.len() implies #[trigger] all[i] != '/' && (all[i] == '~'
            ==> i + 1 < all.len() && (all[i + 1] == '0' || all[i + 1] == '1')) by {
            if i < head.len() {
                assert(all[i] == head[i]);
                if head[i] == '~' {
                    assert(all[i + 1] == head[i + 1]);
                }
            } else {
                assert(all[i] == tail[i - head.len()]);
            }
        }
    }
}

/// A JSON Pointer token stands for the text it was escaped from, so two different
/// keys never share a path.
pub proof fn law_unescaping_undoes_escaping(token: Seq<char>)
    ensures
        unescaped(escaped(token)) == token,
    decreases token.len(),
{
    if token.len() > 0 {
        let head = escaped(token.drop_last());
        let all = escaped(token);
        law_unescaping_undoes_escaping(token.drop_last());
        lemma_escaped_is_a_token(token.drop_last());
        let c = token.last();
        assert(token =~= token.drop_last().push(c));
        if c == '~' || c == '/' {
            assert(all.take(all.len() - 2) =~= head);
            assert(all[all.len() - 2] == '~');
        } else {
            assert(all.drop_last() =~= head);
            assert(all.last() == c);
            if all.len() >= 2 {
                assert(all[all.len() - 2] == head[head.len() - 1]);
                assert(head[head.len() - 1] != '~');
            }
        }
    } else {
        assert(token =~= Seq::empty());
    }
}

/// A pointer followed by `/` and an escaped key is a pointer again, whatever the key.
pub proof fn law_every_key_has_a_path(parent: Seq<char>, key: Seq<char>)
    requires
        is_pointer(parent),
    ensures
        is_pointer(parent + "/"@ + escaped(key)),
{
    reveal_strlit("/");
    lemma_escaped_is_a_token(key);
    let path = parent + "/"@ + escaped(key);
    assert forall|i: int| 0 <= i < path.len() && #[trigger] path[i] == '~' implies i + 1
        < path.len() && (path[i + 1] == '0' || path[i + 1] == '1') by {
        if i < parent.len() {
            assert(parent[i] == '~');
            assert(path[i + 1] == parent[i + 1]);
        } else {
            let j = i - parent.len() - 1;
            assert(path[i] == escaped(key)[j]);
            assert(path[i + 1] == escaped(key)[j + 1]);
        }
    }
}

} // verus!
