//! What the records of the protocol are: which JSON stands for a record, which fields it gives, and
//! what is said of JSON that stands for none.
use crate::client::{
    call_tool_result, list_prompts_result, list_resources_result, list_tools_result, request_result, Reply,
};
use crate::decode::{decoded_list, lemma_first_message, views, Decode};
use crate::error::Error;
use crate::json::{Json, JsonView, NumberView};
use crate::message::{length_message, missing_message, type_message, value_message, variant_message};
use crate::rpc::{IncomingNotification, RpcError, RpcResponse};
use crate::types::{
    is_tool_result, ContentBlock, EmbeddedResource, Prompt, PromptArgument, Resource, ServerCapabilities, Tool,
        ToolResult,
};
use vstd::prelude::*;

verus! {

/// The value of a field: the member of that name of an object, or the item at that place of an
/// array.
pub open spec fn part(json: JsonView, place: int, name: Seq<char>) -> Option<JsonView> {
    match json {
        JsonView::Object(members) => if members.dom().contains(name) {
            Some(members[name])
        } else {
            None
        },
        JsonView::Array(items) => if 0 <= place < items.len() {
            Some(items[place])
        } else {
            None
        },
        _ => None,
    }
}

/// The JSON stands for no value of the type, and this is what is said of it.
pub open spec fn refuses<T: Decode>(json: JsonView, message: Seq<char>) -> bool {
    T::decoded(json) == Err::<T::V, Seq<char>>(message)
}

/// An object, or an array with an item for each of `n` fields.
pub open spec fn is_shaped(json: JsonView, n: nat) -> bool {
    json is Object || (json matches JsonView::Array(items) && items.len() == n)
}

/// The field is missing or null.
pub open spec fn is_nothing(value: Option<JsonView>) -> bool {
    value is None || value == Some(JsonView::Null)
}

/// The field is a string.
pub open spec fn is_text(value: Option<JsonView>) -> bool {
    value matches Some(JsonView::String(_))
}

/// The field is a string, missing or null.
pub open spec fn may_be_text(value: Option<JsonView>) -> bool {
    is_nothing(value) || is_text(value)
}

/// The field is a boolean, missing or null.
pub open spec fn may_be_bool(value: Option<JsonView>) -> bool {
    is_nothing(value) || value matches Some(JsonView::Bool(_))
}

/// The field is a whole number from zero up.
pub open spec fn is_u64(value: Option<JsonView>) -> bool {
    value matches Some(JsonView::Number(NumberView::Unsigned(_)))
}

/// The field is a whole number in the range of `i64`.
pub open spec fn is_i64(value: Option<JsonView>) -> bool {
    match value {
        Some(JsonView::Number(NumberView::Unsigned(n))) => n <= 0x7fff_ffff_ffff_ffff,
        Some(JsonView::Number(NumberView::Negative(_))) => true,
        _ => false,
    }
}

/// The field holds this text.
pub open spec fn tells_text(value: Option<JsonView>, own: String) -> bool {
    value == Some(JsonView::String(own@))
}

/// The field holds this text, or nothing.
pub open spec fn may_tell_text(value: Option<JsonView>, own: Option<String>) -> bool {
    match own {
        Some(text) => tells_text(value, text),
        None => is_nothing(value),
    }
}

/// The two are the same text, or both nothing.
pub open spec fn same_text_option(one: Option<String>, other: Option<String>) -> bool {
    match one {
        Some(text) => other matches Some(its) && its@ == text@,
        None => other is None,
    }
}

/// The two are the same JSON, or both nothing.
pub open spec fn same_json_option(one: Option<Json>, other: Option<Json>) -> bool {
    match one {
        Some(json) => other matches Some(its) && its@ == json@,
        None => other is None,
    }
}

/// The field holds this truth value, or nothing.
pub open spec fn may_tell_bool(value: Option<JsonView>, own: Option<bool>) -> bool {
    match own {
        Some(b) => value == Some(JsonView::Bool(b)),
        None => is_nothing(value),
    }
}

/// The field holds this JSON, or nothing.
pub open spec fn may_tell_value(value: Option<JsonView>, own: Option<Json>) -> bool {
    match own {
        Some(json) => value == Some(json@) && !(json@ is Null),
        None => is_nothing(value),
    }
}

/// The field holds this number.
pub open spec fn tells_u64(value: Option<JsonView>, own: u64) -> bool {
    value == Some(JsonView::Number(NumberView::Unsigned(own)))
}

/// The field holds this number.
pub open spec fn tells_i64(value: Option<JsonView>, own: i64) -> bool {
    match value {
        Some(JsonView::Number(NumberView::Unsigned(n))) => n as int == own as int,
        Some(JsonView::Number(NumberView::Negative(n))) => n as int == own as int,
        _ => false,
    }
}

/// What is said of a value that should be a number: a whole number is out of range, anything else
/// is of another type.
pub open spec fn number_fault(json: JsonView, expected: Seq<char>) -> Seq<char> {
    match json {
        JsonView::Number(NumberView::Float(_)) => type_message(json, expected),
        JsonView::Number(_) => value_message(json, expected),
        _ => type_message(json, expected),
    }
}

/// The field is a list of arguments of a prompt, missing or null.
pub open spec fn may_be_arguments(value: Option<JsonView>) -> bool {
    is_nothing(value) || (value matches Some(JsonView::Array(items)) && forall|i: int|
        0 <= i < items.len() ==> is_prompt_argument(#[trigger] items[i]))
}

/// The field holds these arguments of a prompt, or nothing.
pub open spec fn may_tell_arguments(value: Option<JsonView>, own: Option<Vec<PromptArgument>>) -> bool {
    match own {
        Some(list) => value matches Some(JsonView::Array(items)) && items.len() == list@.len() && forall|i: int|
            0 <= i < items.len() ==> tells_prompt_argument(#[trigger] items[i], list@[i]),
        None => is_nothing(value),
    }
}

/// The field is an error, missing or null.
pub open spec fn may_be_error(value: Option<JsonView>) -> bool {
    is_nothing(value) || (value matches Some(json) && is_rpc_error(json))
}

/// The field holds this error, or nothing.
pub open spec fn may_tell_error(value: Option<JsonView>, own: Option<RpcError>) -> bool {
    match own {
        Some(error) => value matches Some(json) && !(json is Null) && tells_rpc_error(json, error),
        None => is_nothing(value),
    }
}

/// The JSON stands for a tool.
pub open spec fn is_tool(json: JsonView) -> bool {
    &&& is_shaped(json, 3)
    &&& is_text(part(json, 0, "name"@))
    &&& may_be_text(part(json, 1, "description"@))
    &&& part(json, 2, "inputSchema"@) is Some
}

/// The JSON says that a tool has these fields.
pub open spec fn tells_tool(json: JsonView, own: Tool) -> bool {
    &&& is_tool(json)
    &&& tells_text(part(json, 0, "name"@), own.name)
    &&& may_tell_text(part(json, 1, "description"@), own.description)
    &&& part(json, 2, "inputSchema"@) == Some(own.input_schema@)
}

/// JSON stands for a tool exactly where it has the shape and its fields hold what they should; what
/// is said of other JSON is what is wrong first.
pub proof fn law_tool(json: JsonView)
    ensures
        Tool::decoded(json) is Ok <==> is_tool(json),
        !(json is Object) && !(json is Array) ==> refuses::<Tool>(
            json,
            type_message(json, "struct Tool"@),
        ),
        json is Object && !is_tool(json) ==> refuses::<Tool>(
            json,
            if !may_be_text(part(json, 1, "description"@)) {
                type_message(part(json, 1, "description"@)->0, "a string"@)
            } else if part(json, 0, "name"@) is Some && !is_text(part(json, 0, "name"@)) {
                type_message(part(json, 0, "name"@)->0, "a string"@)
            } else if part(json, 0, "name"@) is None {
                missing_message("name"@)
            } else {
                missing_message("inputSchema"@)
            },
        ),
        json matches JsonView::Array(items) ==> (!is_tool(json) ==> refuses::<Tool>(
            json,
            if items.len() <= 0 {
                length_message(0, "struct Tool with 3 elements"@)
            } else if part(json, 0, "name"@) is Some && !is_text(part(json, 0, "name"@)) {
                type_message(part(json, 0, "name"@)->0, "a string"@)
            } else if items.len() <= 1 {
                length_message(1, "struct Tool with 3 elements"@)
            } else if !may_be_text(part(json, 1, "description"@)) {
                type_message(part(json, 1, "description"@)->0, "a string"@)
            } else if items.len() <= 2 {
                length_message(2, "struct Tool with 3 elements"@)
            } else {
                length_message(items.len(), "fewer elements in array"@)
            },
        )),
{
}

/// The fields of a tool are those that the JSON holds.
pub proof fn law_tool_fields(json: JsonView, own: Tool)
    requires
        Tool::decoded(json) == Ok::<<Tool as View>::V, Seq<char>>(own@),
    ensures
        tells_tool(json, own),
{
    law_tool(json);
}

/// What is read is what the JSON says, and nothing is read out of other JSON.
pub proof fn law_tool_is_read(json: Json, result: Result<Tool, String>)
    requires
        call_ensures(Tool::decode, (&json,), result),
    ensures
        result is Ok <==> is_tool(json@),
        result matches Ok(own) ==> tells_tool(json@, own),
        result matches Err(message) ==> refuses::<Tool>(json@, message@),
{
    law_tool(json@);
    if let Ok(own) = result {
        law_tool_fields(json@, own);
    }
}

/// The JSON stands for a resource.
pub open spec fn is_resource(json: JsonView) -> bool {
    &&& is_shaped(json, 4)
    &&& is_text(part(json, 0, "uri"@))
    &&& is_text(part(json, 1, "name"@))
    &&& may_be_text(part(json, 2, "description"@))
    &&& may_be_text(part(json, 3, "mimeType"@))
}

/// The JSON says that a resource has these fields.
pub open spec fn tells_resource(json: JsonView, own: Resource) -> bool {
    &&& is_resource(json)
    &&& tells_text(part(json, 0, "uri"@), own.uri)
    &&& tells_text(part(json, 1, "name"@), own.name)
    &&& may_tell_text(part(json, 2, "description"@), own.description)
    &&& may_tell_text(part(json, 3, "mimeType"@), own.mime_type)
}

/// JSON stands for a resource exactly where it has the shape and its fields hold what they should;
/// what is said of other JSON is what is wrong first.
pub proof fn law_resource(json: JsonView)
    ensures
        Resource::decoded(json) is Ok <==> is_resource(json),
        !(json is Object) && !(json is Array) ==> refuses::<Resource>(
            json,
            type_message(json, "struct Resource"@),
        ),
        json is Object && !is_resource(json) ==> refuses::<Resource>(
            json,
            if !may_be_text(part(json, 2, "description"@)) {
                type_message(part(json, 2, "description"@)->0, "a string"@)
            } else if !may_be_text(part(json, 3, "mimeType"@)) {
                type_message(part(json, 3, "mimeType"@)->0, "a string"@)
            } else if part(json, 1, "name"@) is Some && !is_text(part(json, 1, "name"@)) {
                type_message(part(json, 1, "name"@)->0, "a string"@)
            } else if part(json, 0, "uri"@) is Some && !is_text(part(json, 0, "uri"@)) {
                type_message(part(json, 0, "uri"@)->0, "a string"@)
            } else if part(json, 0, "uri"@) is None {
                missing_message("uri"@)
            } else {
                missing_message("name"@)
            },
        ),
        json matches JsonView::Array(items) ==> (!is_resource(json) ==> refuses::<Resource>(
            json,
            if items.len() <= 0 {
                length_message(0, "struct Resource with 4 elements"@)
            } else if part(json, 0, "uri"@) is Some && !is_text(part(json, 0, "uri"@)) {
                type_message(part(json, 0, "uri"@)->0, "a string"@)
            } else if items.len() <= 1 {
                length_message(1, "struct Resource with 4 elements"@)
            } else if part(json, 1, "name"@) is Some && !is_text(part(json, 1, "name"@)) {
                type_message(part(json, 1, "name"@)->0, "a string"@)
            } else if items.len() <= 2 {
                length_message(2, "struct Resource with 4 elements"@)
            } else if !may_be_text(part(json, 2, "description"@)) {
                type_message(part(json, 2, "description"@)->0, "a string"@)
            } else if items.len() <= 3 {
                length_message(3, "struct Resource with 4 elements"@)
            } else if !may_be_text(part(json, 3, "mimeType"@)) {
                type_message(part(json, 3, "mimeType"@)->0, "a string"@)
            } else {
                length_message(items.len(), "fewer elements in array"@)
            },
        )),
{
}

/// The fields of a resource are those that the JSON holds.
pub proof fn law_resource_fields(json: JsonView, own: Resource)
    requires
        Resource::decoded(json) == Ok::<<Resource as View>::V, Seq<char>>(own@),
    ensures
        tells_resource(json, own),
{
    law_resource(json);
}

/// What is read is what the JSON says, and nothing is read out of other JSON.
pub proof fn law_resource_is_read(json: Json, result: Result<Resource, String>)
    requires
        call_ensures(Resource::decode, (&json,), result),
    ensures
        result is Ok <==> is_resource(json@),
        result matches Ok(own) ==> tells_resource(json@, own),
        result matches Err(message) ==> refuses::<Resource>(json@, message@),
{
    law_resource(json@);
    if let Ok(own) = result {
        law_resource_fields(json@, own);
    }
}

/// The JSON stands for an argument of a prompt.
pub open spec fn is_prompt_argument(json: JsonView) -> bool {
    &&& is_shaped(json, 3)
    &&& is_text(part(json, 0, "name"@))
    &&& may_be_text(part(json, 1, "description"@))
    &&& may_be_bool(part(json, 2, "required"@))
}

/// The JSON says that an argument of a prompt has these fields.
pub open spec fn tells_prompt_argument(json: JsonView, own: PromptArgument) -> bool {
    &&& is_prompt_argument(json)
    &&& tells_text(part(json, 0, "name"@), own.name)
    &&& may_tell_text(part(json, 1, "description"@), own.description)
    &&& may_tell_bool(part(json, 2, "required"@), own.required)
}

/// JSON stands for an argument of a prompt exactly where it has the shape and its fields hold what
/// they should; what is said of other JSON is what is wrong first.
pub proof fn law_prompt_argument(json: JsonView)
    ensures
        PromptArgument::decoded(json) is Ok <==> is_prompt_argument(json),
        !(json is Object) && !(json is Array) ==> refuses::<PromptArgument>(
            json,
            type_message(json, "struct PromptArgument"@),
        ),
        json is Object && !is_prompt_argument(json) ==> refuses::<PromptArgument>(
            json,
            if !may_be_text(part(json, 1, "description"@)) {
                type_message(part(json, 1, "description"@)->0, "a string"@)
            } else if part(json, 0, "name"@) is Some && !is_text(part(json, 0, "name"@)) {
                type_message(part(json, 0, "name"@)->0, "a string"@)
            } else if !may_be_bool(part(json, 2, "required"@)) {
                type_message(part(json, 2, "required"@)->0, "a boolean"@)
            } else {
                missing_message("name"@)
            },
        ),
        json matches JsonView::Array(items) ==> (!is_prompt_argument(json) ==> refuses::<PromptArgument>(
            json,
            if items.len() <= 0 {
                length_message(0, "struct PromptArgument with 3 elements"@)
            } else if part(json, 0, "name"@) is Some && !is_text(part(json, 0, "name"@)) {
                type_message(part(json, 0, "name"@)->0, "a string"@)
            } else if items.len() <= 1 {
                length_message(1, "struct PromptArgument with 3 elements"@)
            } else if !may_be_text(part(json, 1, "description"@)) {
                type_message(part(json, 1, "description"@)->0, "a string"@)
            } else if items.len() <= 2 {
                length_message(2, "struct PromptArgument with 3 elements"@)
            } else if !may_be_bool(part(json, 2, "required"@)) {
                type_message(part(json, 2, "required"@)->0, "a boolean"@)
            } else {
                length_message(items.len(), "fewer elements in array"@)
            },
        )),
{
}

/// The fields of an argument of a prompt are those that the JSON holds.
pub proof fn law_prompt_argument_fields(json: JsonView, own: PromptArgument)
    requires
        PromptArgument::decoded(json) == Ok::<<PromptArgument as View>::V, Seq<char>>(own@),
    ensures
        tells_prompt_argument(json, own),
{
    law_prompt_argument(json);
}

/// What is read is what the JSON says, and nothing is read out of other JSON.
pub proof fn law_prompt_argument_is_read(json: Json, result: Result<PromptArgument, String>)
    requires
        call_ensures(PromptArgument::decode, (&json,), result),
    ensures
        result is Ok <==> is_prompt_argument(json@),
        result matches Ok(own) ==> tells_prompt_argument(json@, own),
        result matches Err(message) ==> refuses::<PromptArgument>(json@, message@),
{
    law_prompt_argument(json@);
    if let Ok(own) = result {
        law_prompt_argument_fields(json@, own);
    }
}

/// A list of arguments is read where every item is an argument.
proof fn lemma_arguments(json: JsonView)
    requires
        json is Array,
    ensures
        decoded_list::<PromptArgument>(json) is Ok <==> may_be_arguments(Some(json)),
{
    let items = json->Array_0;
    assert forall|i: int| 0 <= i < items.len() implies (PromptArgument::decoded(#[trigger] items[i]) is Ok
        <==> is_prompt_argument(items[i])) by {
        law_prompt_argument(items[i]);
    }
    if decoded_list::<PromptArgument>(json) is Ok {
        assert forall|i: int| 0 <= i < items.len() implies is_prompt_argument(#[trigger] items[i]) by {
            assert(PromptArgument::decoded(items[i]) is Ok);
        }
    }
}

/// The arguments that are read are those that the items hold.
proof fn lemma_arguments_told(json: JsonView, list: Seq<PromptArgument>)
    requires
        decoded_list::<PromptArgument>(json) == Ok::<Seq<<PromptArgument as View>::V>, Seq<char>>(views(list)),
    ensures
        json matches JsonView::Array(items) && items.len() == list.len() && forall|i: int|
            0 <= i < items.len() ==> tells_prompt_argument(#[trigger] items[i], list[i]),
{
    let items = json->Array_0;
    assert(views(list).len() == items.len());
    assert forall|i: int| 0 <= i < items.len() implies tells_prompt_argument(#[trigger] items[i], list[i]) by {
        assert(PromptArgument::decoded(items[i]) is Ok);
        assert(views(list)[i] == list[i]@);
        law_prompt_argument_fields(items[i], list[i]);
    }
}

/// The JSON stands for a prompt.
pub open spec fn is_prompt(json: JsonView) -> bool {
    &&& is_shaped(json, 3)
    &&& is_text(part(json, 0, "name"@))
    &&& may_be_text(part(json, 1, "description"@))
    &&& may_be_arguments(part(json, 2, "arguments"@))
}

/// The JSON says that a prompt has these fields.
pub open spec fn tells_prompt(json: JsonView, own: Prompt) -> bool {
    &&& is_prompt(json)
    &&& tells_text(part(json, 0, "name"@), own.name)
    &&& may_tell_text(part(json, 1, "description"@), own.description)
    &&& may_tell_arguments(part(json, 2, "arguments"@), own.arguments)
}

/// JSON stands for a prompt exactly where it has the shape and its fields hold what they should;
/// what is said of other JSON is what is wrong first.
pub proof fn law_prompt(json: JsonView)
    ensures
        Prompt::decoded(json) is Ok <==> is_prompt(json),
        !(json is Object) && !(json is Array) ==> refuses::<Prompt>(
            json,
            type_message(json, "struct Prompt"@),
        ),
        json is Object && !is_prompt(json) ==> refuses::<Prompt>(
            json,
            if !may_be_arguments(part(json, 2, "arguments"@)) {
                decoded_list::<PromptArgument>(part(json, 2, "arguments"@)->0)->Err_0
            } else if !may_be_text(part(json, 1, "description"@)) {
                type_message(part(json, 1, "description"@)->0, "a string"@)
            } else if part(json, 0, "name"@) is Some && !is_text(part(json, 0, "name"@)) {
                type_message(part(json, 0, "name"@)->0, "a string"@)
            } else {
                missing_message("name"@)
            },
        ),
        json matches JsonView::Array(items) ==> (!is_prompt(json) ==> refuses::<Prompt>(
            json,
            if items.len() <= 0 {
                length_message(0, "struct Prompt with 3 elements"@)
            } else if part(json, 0, "name"@) is Some && !is_text(part(json, 0, "name"@)) {
                type_message(part(json, 0, "name"@)->0, "a string"@)
            } else if items.len() <= 1 {
                length_message(1, "struct Prompt with 3 elements"@)
            } else if !may_be_text(part(json, 1, "description"@)) {
                type_message(part(json, 1, "description"@)->0, "a string"@)
            } else if items.len() <= 2 {
                length_message(2, "struct Prompt with 3 elements"@)
            } else if !may_be_arguments(part(json, 2, "arguments"@)) {
                decoded_list::<PromptArgument>(part(json, 2, "arguments"@)->0)->Err_0
            } else {
                length_message(items.len(), "fewer elements in array"@)
            },
        )),
{
    if let Some(JsonView::Array(items)) = part(json, 2, "arguments"@) {
        lemma_arguments(JsonView::Array(items));
    }
}

/// The fields of a prompt are those that the JSON holds.
pub proof fn law_prompt_fields(json: JsonView, own: Prompt)
    requires
        Prompt::decoded(json) == Ok::<<Prompt as View>::V, Seq<char>>(own@),
    ensures
        tells_prompt(json, own),
{
    law_prompt(json);
    if let Some(list) = own.arguments {
        lemma_arguments_told(part(json, 2, "arguments"@)->0, list@);
    }
}

/// What is read is what the JSON says, and nothing is read out of other JSON.
pub proof fn law_prompt_is_read(json: Json, result: Result<Prompt, String>)
    requires
        call_ensures(Prompt::decode, (&json,), result),
    ensures
        result is Ok <==> is_prompt(json@),
        result matches Ok(own) ==> tells_prompt(json@, own),
        result matches Err(message) ==> refuses::<Prompt>(json@, message@),
{
    law_prompt(json@);
    if let Ok(own) = result {
        law_prompt_fields(json@, own);
    }
}

/// The JSON stands for an embedded resource.
pub open spec fn is_embedded_resource(json: JsonView) -> bool {
    &&& is_shaped(json, 3)
    &&& is_text(part(json, 0, "uri"@))
    &&& may_be_text(part(json, 1, "text"@))
    &&& may_be_text(part(json, 2, "blob"@))
}

/// The JSON says that an embedded resource has these fields.
pub open spec fn tells_embedded_resource(json: JsonView, own: EmbeddedResource) -> bool {
    &&& is_embedded_resource(json)
    &&& tells_text(part(json, 0, "uri"@), own.uri)
    &&& may_tell_text(part(json, 1, "text"@), own.text)
    &&& may_tell_text(part(json, 2, "blob"@), own.blob)
}

/// JSON stands for an embedded resource exactly where it has the shape and its fields hold what
/// they should; what is said of other JSON is what is wrong first.
pub proof fn law_embedded_resource(json: JsonView)
    ensures
        EmbeddedResource::decoded(json) is Ok <==> is_embedded_resource(json),
        !(json is Object) && !(json is Array) ==> refuses::<EmbeddedResource>(
            json,
            type_message(json, "struct EmbeddedResource"@),
        ),
        json is Object && !is_embedded_resource(json) ==> refuses::<EmbeddedResource>(
            json,
            if !may_be_text(part(json, 2, "blob"@)) {
                type_message(part(json, 2, "blob"@)->0, "a string"@)
            } else if !may_be_text(part(json, 1, "text"@)) {
                type_message(part(json, 1, "text"@)->0, "a string"@)
            } else if part(json, 0, "uri"@) is Some && !is_text(part(json, 0, "uri"@)) {
                type_message(part(json, 0, "uri"@)->0, "a string"@)
            } else {
                missing_message("uri"@)
            },
        ),
        json matches JsonView::Array(items) ==> (!is_embedded_resource(json) ==> refuses::<EmbeddedResource>(
            json,
            if items.len() <= 0 {
                length_message(0, "struct EmbeddedResource with 3 elements"@)
            } else if part(json, 0, "uri"@) is Some && !is_text(part(json, 0, "uri"@)) {
                type_message(part(json, 0, "uri"@)->0, "a string"@)
            } else if items.len() <= 1 {
                length_message(1, "struct EmbeddedResource with 3 elements"@)
            } else if !may_be_text(part(json, 1, "text"@)) {
                type_message(part(json, 1, "text"@)->0, "a string"@)
            } else if items.len() <= 2 {
                length_message(2, "struct EmbeddedResource with 3 elements"@)
            } else if !may_be_text(part(json, 2, "blob"@)) {
                type_message(part(json, 2, "blob"@)->0, "a string"@)
            } else {
                length_message(items.len(), "3 elements in sequence"@)
            },
        )),
{
}

/// The fields of an embedded resource are those that the JSON holds.
pub proof fn law_embedded_resource_fields(json: JsonView, own: EmbeddedResource)
    requires
        EmbeddedResource::decoded(json) == Ok::<<EmbeddedResource as View>::V, Seq<char>>(own@),
    ensures
        tells_embedded_resource(json, own),
{
    law_embedded_resource(json);
}

/// What is read is what the JSON says, and nothing is read out of other JSON.
pub proof fn law_embedded_resource_is_read(json: Json, result: Result<EmbeddedResource, String>)
    requires
        call_ensures(EmbeddedResource::decode, (&json,), result),
    ensures
        result is Ok <==> is_embedded_resource(json@),
        result matches Ok(own) ==> tells_embedded_resource(json@, own),
        result matches Err(message) ==> refuses::<EmbeddedResource>(json@, message@),
{
    law_embedded_resource(json@);
    if let Ok(own) = result {
        law_embedded_resource_fields(json@, own);
    }
}

/// The JSON stands for capabilities.
pub open spec fn is_server_capabilities(json: JsonView) -> bool {
    &&& is_shaped(json, 4)
}

/// The JSON says that capabilities has these fields.
pub open spec fn tells_server_capabilities(json: JsonView, own: ServerCapabilities) -> bool {
    &&& is_server_capabilities(json)
    &&& may_tell_value(part(json, 0, "tools"@), own.tools)
    &&& may_tell_value(part(json, 1, "resources"@), own.resources)
    &&& may_tell_value(part(json, 2, "prompts"@), own.prompts)
    &&& may_tell_value(part(json, 3, "logging"@), own.logging)
}

/// JSON stands for capabilities exactly where it has the shape and its fields hold what they
/// should; what is said of other JSON is what is wrong first.
pub proof fn law_server_capabilities(json: JsonView)
    ensures
        ServerCapabilities::decoded(json) is Ok <==> is_server_capabilities(json),
        !(json is Object) && !(json is Array) ==> refuses::<ServerCapabilities>(
            json,
            type_message(json, "struct ServerCapabilities"@),
        ),
        json matches JsonView::Array(items) ==> (!is_server_capabilities(json)
            ==> refuses::<ServerCapabilities>(
            json,
            if items.len() <= 0 {
                length_message(0, "struct ServerCapabilities with 4 elements"@)
            } else if items.len() <= 1 {
                length_message(1, "struct ServerCapabilities with 4 elements"@)
            } else if items.len() <= 2 {
                length_message(2, "struct ServerCapabilities with 4 elements"@)
            } else if items.len() <= 3 {
                length_message(3, "struct ServerCapabilities with 4 elements"@)
            } else {
                length_message(items.len(), "fewer elements in array"@)
            },
        )),
{
}

/// The fields of capabilities are those that the JSON holds.
pub proof fn law_server_capabilities_fields(json: JsonView, own: ServerCapabilities)
    requires
        ServerCapabilities::decoded(json) == Ok::<<ServerCapabilities as View>::V, Seq<char>>(own@),
    ensures
        tells_server_capabilities(json, own),
{
    law_server_capabilities(json);
}

/// What is read is what the JSON says, and nothing is read out of other JSON.
pub proof fn law_server_capabilities_is_read(json: Json, result: Result<ServerCapabilities, String>)
    requires
        call_ensures(ServerCapabilities::decode, (&json,), result),
    ensures
        result is Ok <==> is_server_capabilities(json@),
        result matches Ok(own) ==> tells_server_capabilities(json@, own),
        result matches Err(message) ==> refuses::<ServerCapabilities>(json@, message@),
{
    law_server_capabilities(json@);
    if let Ok(own) = result {
        law_server_capabilities_fields(json@, own);
    }
}

/// The JSON stands for an error.
pub open spec fn is_rpc_error(json: JsonView) -> bool {
    &&& is_shaped(json, 2)
    &&& is_i64(part(json, 0, "code"@))
    &&& is_text(part(json, 1, "message"@))
}

/// The JSON says that an error has these fields.
pub open spec fn tells_rpc_error(json: JsonView, own: RpcError) -> bool {
    &&& is_rpc_error(json)
    &&& tells_i64(part(json, 0, "code"@), own.code)
    &&& tells_text(part(json, 1, "message"@), own.message)
}

/// JSON stands for an error exactly where it has the shape and its fields hold what they should;
/// what is said of other JSON is what is wrong first.
pub proof fn law_rpc_error(json: JsonView)
    ensures
        RpcError::decoded(json) is Ok <==> is_rpc_error(json),
        !(json is Object) && !(json is Array) ==> refuses::<RpcError>(
            json,
            type_message(json, "struct RpcError"@),
        ),
        json is Object && !is_rpc_error(json) ==> refuses::<RpcError>(
            json,
            if part(json, 0, "code"@) is Some && !is_i64(part(json, 0, "code"@)) {
                number_fault(part(json, 0, "code"@)->0, "i64"@)
            } else if part(json, 1, "message"@) is Some && !is_text(part(json, 1, "message"@)) {
                type_message(part(json, 1, "message"@)->0, "a string"@)
            } else if part(json, 0, "code"@) is None {
                missing_message("code"@)
            } else {
                missing_message("message"@)
            },
        ),
        json matches JsonView::Array(items) ==> (!is_rpc_error(json) ==> refuses::<RpcError>(
            json,
            if items.len() <= 0 {
                length_message(0, "struct RpcError with 2 elements"@)
            } else if part(json, 0, "code"@) is Some && !is_i64(part(json, 0, "code"@)) {
                number_fault(part(json, 0, "code"@)->0, "i64"@)
            } else if items.len() <= 1 {
                length_message(1, "struct RpcError with 2 elements"@)
            } else if part(json, 1, "message"@) is Some && !is_text(part(json, 1, "message"@)) {
                type_message(part(json, 1, "message"@)->0, "a string"@)
            } else {
                length_message(items.len(), "fewer elements in array"@)
            },
        )),
{
}

/// The fields of an error are those that the JSON holds.
pub proof fn law_rpc_error_fields(json: JsonView, own: RpcError)
    requires
        RpcError::decoded(json) == Ok::<<RpcError as View>::V, Seq<char>>(own@),
    ensures
        tells_rpc_error(json, own),
{
    law_rpc_error(json);
}

/// What is read is what the JSON says, and nothing is read out of other JSON.
pub proof fn law_rpc_error_is_read(json: Json, result: Result<RpcError, String>)
    requires
        call_ensures(RpcError::decode, (&json,), result),
    ensures
        result is Ok <==> is_rpc_error(json@),
        result matches Ok(own) ==> tells_rpc_error(json@, own),
        result matches Err(message) ==> refuses::<RpcError>(json@, message@),
{
    law_rpc_error(json@);
    if let Ok(own) = result {
        law_rpc_error_fields(json@, own);
    }
}

/// The JSON stands for a response.
pub open spec fn is_rpc_response(json: JsonView) -> bool {
    &&& is_shaped(json, 3)
    &&& is_u64(part(json, 0, "id"@))
    &&& may_be_error(part(json, 2, "error"@))
}

/// The JSON says that a response has these fields.
pub open spec fn tells_rpc_response(json: JsonView, own: RpcResponse) -> bool {
    &&& is_rpc_response(json)
    &&& tells_u64(part(json, 0, "id"@), own.id)
    &&& may_tell_value(part(json, 1, "result"@), own.result)
    &&& may_tell_error(part(json, 2, "error"@), own.error)
}

/// JSON stands for a response exactly where it has the shape and its fields hold what they should;
/// what is said of other JSON is what is wrong first.
pub proof fn law_rpc_response(json: JsonView)
    ensures
        RpcResponse::decoded(json) is Ok <==> is_rpc_response(json),
        !(json is Object) && !(json is Array) ==> refuses::<RpcResponse>(
            json,
            type_message(json, "struct RpcResponse"@),
        ),
        json is Object && !is_rpc_response(json) ==> refuses::<RpcResponse>(
            json,
            if !may_be_error(part(json, 2, "error"@)) {
                RpcError::decoded(part(json, 2, "error"@)->0)->Err_0
            } else if part(json, 0, "id"@) is Some && !is_u64(part(json, 0, "id"@)) {
                number_fault(part(json, 0, "id"@)->0, "u64"@)
            } else {
                missing_message("id"@)
            },
        ),
        json matches JsonView::Array(items) ==> (!is_rpc_response(json) ==> refuses::<RpcResponse>(
            json,
            if items.len() <= 0 {
                length_message(0, "struct RpcResponse with 3 elements"@)
            } else if part(json, 0, "id"@) is Some && !is_u64(part(json, 0, "id"@)) {
                number_fault(part(json, 0, "id"@)->0, "u64"@)
            } else if items.len() <= 1 {
                length_message(1, "struct RpcResponse with 3 elements"@)
            } else if items.len() <= 2 {
                length_message(2, "struct RpcResponse with 3 elements"@)
            } else if !may_be_error(part(json, 2, "error"@)) {
                RpcError::decoded(part(json, 2, "error"@)->0)->Err_0
            } else {
                length_message(items.len(), "fewer elements in array"@)
            },
        )),
{
    if let Some(error) = part(json, 2, "error"@) {
        law_rpc_error(error);
    }
}

/// The fields of a response are those that the JSON holds.
pub proof fn law_rpc_response_fields(json: JsonView, own: RpcResponse)
    requires
        RpcResponse::decoded(json) == Ok::<<RpcResponse as View>::V, Seq<char>>(own@),
    ensures
        tells_rpc_response(json, own),
{
    law_rpc_response(json);
    if let Some(error) = own.error {
        law_rpc_error_fields(part(json, 2, "error"@)->0, error);
    }
}

/// What is read is what the JSON says, and nothing is read out of other JSON.
pub proof fn law_rpc_response_is_read(json: Json, result: Result<RpcResponse, String>)
    requires
        call_ensures(RpcResponse::decode, (&json,), result),
    ensures
        result is Ok <==> is_rpc_response(json@),
        result matches Ok(own) ==> tells_rpc_response(json@, own),
        result matches Err(message) ==> refuses::<RpcResponse>(json@, message@),
{
    law_rpc_response(json@);
    if let Ok(own) = result {
        law_rpc_response_fields(json@, own);
    }
}

/// The JSON stands for a notification.
pub open spec fn is_incoming_notification(json: JsonView) -> bool {
    &&& is_shaped(json, 2)
    &&& is_text(part(json, 0, "method"@))
}

/// The JSON says that a notification has these fields.
pub open spec fn tells_incoming_notification(json: JsonView, own: IncomingNotification) -> bool {
    &&& is_incoming_notification(json)
    &&& tells_text(part(json, 0, "method"@), own.method)
    &&& may_tell_value(part(json, 1, "params"@), own.params)
}

/// JSON stands for a notification exactly where it has the shape and its fields hold what they
/// should; what is said of other JSON is what is wrong first.
pub proof fn law_incoming_notification(json: JsonView)
    ensures
        IncomingNotification::decoded(json) is Ok <==> is_incoming_notification(json),
        !(json is Object) && !(json is Array) ==> refuses::<IncomingNotification>(
            json,
            type_message(json, "struct IncomingNotification"@),
        ),
        json is Object && !is_incoming_notification(json) ==> refuses::<IncomingNotification>(
            json,
            if part(json, 0, "method"@) is Some && !is_text(part(json, 0, "method"@)) {
                type_message(part(json, 0, "method"@)->0, "a string"@)
            } else {
                missing_message("method"@)
            },
        ),
        json matches JsonView::Array(items) ==> (!is_incoming_notification(json)
            ==> refuses::<IncomingNotification>(
            json,
            if items.len() <= 0 {
                length_message(0, "struct IncomingNotification with 2 elements"@)
            } else if part(json, 0, "method"@) is Some && !is_text(part(json, 0, "method"@)) {
                type_message(part(json, 0, "method"@)->0, "a string"@)
            } else if items.len() <= 1 {
                length_message(1, "struct IncomingNotification with 2 elements"@)
            } else {
                length_message(items.len(), "fewer elements in array"@)
            },
        )),
{
}

/// The fields of a notification are those that the JSON holds.
pub proof fn law_incoming_notification_fields(json: JsonView, own: IncomingNotification)
    requires
        IncomingNotification::decoded(json) == Ok::<<IncomingNotification as View>::V, Seq<char>>(own@),
    ensures
        tells_incoming_notification(json, own),
{
    law_incoming_notification(json);
}

/// What is read is what the JSON says, and nothing is read out of other JSON.
pub proof fn law_incoming_notification_is_read(json: Json, result: Result<IncomingNotification, String>)
    requires
        call_ensures(IncomingNotification::decode, (&json,), result),
    ensures
        result is Ok <==> is_incoming_notification(json@),
        result matches Ok(own) ==> tells_incoming_notification(json@, own),
        result matches Err(message) ==> refuses::<IncomingNotification>(json@, message@),
{
    law_incoming_notification(json@);
    if let Ok(own) = result {
        law_incoming_notification_fields(json@, own);
    }
}

/// A list stands for its items: it is read where every item is, and its values are those that the
/// items stand for, each at its place. Where it is not read, the first item that stands for nothing
/// says why.
pub proof fn law_list<T: Decode>(json: JsonView)
    ensures
        !(json is Array)
            ==> decoded_list::<T>(json) == Err::<Seq<T::V>, Seq<char>>(type_message(json, "a sequence"@)),
        json matches JsonView::Array(items) ==> {
            &&& decoded_list::<T>(json) is Ok <==> forall|i: int|
                0 <= i < items.len() ==> (#[trigger] T::decoded(items[i])) is Ok
            &&& decoded_list::<T>(json) matches Ok(list) ==> list.len() == items.len() && forall|i: int|
                0 <= i < items.len() ==> #[trigger] T::decoded(items[i]) == Ok::<T::V, Seq<char>>(list[i])
            &&& forall|n: int|
                0 <= n < items.len() && (#[trigger] T::decoded(items[n])) is Err && (forall|i: int|
                    0 <= i < n ==> (#[trigger] T::decoded(items[i])) is Ok) ==> decoded_list::<T>(json) == Err::<
                    Seq<T::V>,
                    Seq<char>,
                >(T::decoded(items[n])->Err_0)
        },
{
    if let JsonView::Array(items) = json {
        assert forall|n: int|
            0 <= n < items.len() && (#[trigger] T::decoded(items[n])) is Err && (forall|i: int|
                0 <= i < n ==> (#[trigger] T::decoded(items[i])) is Ok) implies decoded_list::<T>(json) == Err::<
            Seq<T::V>,
            Seq<char>,
        >(T::decoded(items[n])->Err_0) by {
            lemma_first_message::<T>(items, n);
        }
    }
}

/// The JSON stands for a block of text.
pub open spec fn is_text_block(json: JsonView) -> bool {
    &&& is_shaped(json, 2)
    &&& part(json, 0, "type"@) == Some(JsonView::String("text"@))
    &&& is_text(part(json, 1, "text"@))
}

/// The JSON stands for an image.
pub open spec fn is_image_block(json: JsonView) -> bool {
    &&& is_shaped(json, 3)
    &&& part(json, 0, "type"@) == Some(JsonView::String("image"@))
    &&& is_text(part(json, 1, "data"@))
    &&& is_text(part(json, 2, "mimeType"@))
}

/// The JSON stands for an embedded resource.
pub open spec fn is_resource_block(json: JsonView) -> bool {
    &&& is_shaped(json, 2)
    &&& part(json, 0, "type"@) == Some(JsonView::String("resource"@))
    &&& part(json, 1, "resource"@) matches Some(resource) && is_embedded_resource(resource)
}

/// The JSON stands for a block of content.
pub open spec fn is_block(json: JsonView) -> bool {
    is_text_block(json) || is_image_block(json) || is_resource_block(json)
}

/// The JSON says that a block of content is this one.
pub open spec fn tells_block(json: JsonView, own: ContentBlock) -> bool {
    match own {
        ContentBlock::Text { text } => is_text_block(json) && tells_text(part(json, 1, "text"@), text),
        ContentBlock::Image { data, mime_type } => is_image_block(json) && tells_text(part(json, 1, "data"@), data)
            && tells_text(part(json, 2, "mimeType"@), mime_type),
        ContentBlock::Resource { resource } => is_resource_block(json) && tells_embedded_resource(
            part(json, 1, "resource"@)->0,
            resource,
        ),
    }
}

/// The names of the kinds of content are different.
proof fn lemma_kinds()
    ensures
        "text"@ != "image"@,
        "text"@ != "resource"@,
        "image"@ != "resource"@,
{
    reveal_strlit("text");
    reveal_strlit("image");
    reveal_strlit("resource");
    assert("text"@[0] == 't');
    assert("image"@[0] == 'i');
    assert("resource"@[0] == 'r');
}

/// JSON stands for a block of content exactly where its type is one of the three and it has the
/// fields of that type; what is said of other JSON is what is wrong first.
pub proof fn law_content_block(json: JsonView)
    ensures
        ContentBlock::decoded(json) is Ok <==> is_block(json),
        !(json is Object) && !(json is Array)
            ==> refuses::<ContentBlock>(json, type_message(json, "internally tagged enum ContentBlock"@)),
        json is Object || json is Array ==> match part(json, 0, "type"@) {
            None => refuses::<ContentBlock>(
            json,
                missing_message("type"@),
            ),
            Some(JsonView::String(kind)) => kind == "text"@ || kind == "image"@ || kind == "resource"@
                || refuses::<ContentBlock>(json, variant_message(kind)),
            Some(other) => refuses::<ContentBlock>(
            json,
                type_message(other, "variant identifier"@),
            ),
        },
        json is Object && part(json, 0, "type"@) == Some(JsonView::String("text"@)) && !is_block(json)
            ==> refuses::<ContentBlock>(
            json,
            match part(json, 1, "text"@) {
                None => missing_message("text"@),
                Some(other) => type_message(other, "a string"@),
            },
        ),
        json is Object && part(json, 0, "type"@) == Some(JsonView::String("image"@)) && !is_block(json)
            ==> refuses::<ContentBlock>(
            json,
            if part(json, 1, "data"@) is Some && !is_text(part(json, 1, "data"@)) {
                type_message(part(json, 1, "data"@)->0, "a string"@)
            } else if part(json, 2, "mimeType"@) is Some && !is_text(part(json, 2, "mimeType"@)) {
                type_message(part(json, 2, "mimeType"@)->0, "a string"@)
            } else if part(json, 1, "data"@) is None {
                missing_message("data"@)
            } else {
                missing_message("mimeType"@)
            },
        ),
        json is Object && part(json, 0, "type"@) == Some(JsonView::String("resource"@)) && !is_block(json)
            ==> refuses::<ContentBlock>(
            json,
            match part(json, 1, "resource"@) {
                None => missing_message("resource"@),
                Some(other) => EmbeddedResource::decoded(other)->Err_0,
            },
        ),
        json matches JsonView::Array(items) ==> {
            &&& items.len() > 2 && part(json, 0, "type"@) == Some(JsonView::String("text"@)) && is_text(
                Some(items[1]),
            ) ==> refuses::<ContentBlock>(
            json,
                length_message((items.len() - 1) as nat, "1 element in sequence"@),
            )
            &&& items.len() == 1 && part(json, 0, "type"@) == Some(JsonView::String("text"@))
                ==> refuses::<ContentBlock>(
            json,
                length_message(0, "struct variant ContentBlock::Text with 1 element"@),
            )
            &&& items.len() == 1 && part(json, 0, "type"@) == Some(JsonView::String("image"@))
                ==> refuses::<ContentBlock>(
            json,
                length_message(0, "struct variant ContentBlock::Image with 2 elements"@),
            )
            &&& items.len() == 2 && part(json, 0, "type"@) == Some(JsonView::String("image"@)) && is_text(
                Some(items[1]),
            ) ==> refuses::<ContentBlock>(
            json,
                length_message(1, "struct variant ContentBlock::Image with 2 elements"@),
            )
            &&& items.len() > 3 && part(json, 0, "type"@) == Some(JsonView::String("image"@)) && is_text(
                Some(items[1]),
            ) && is_text(Some(items[2]))
                ==> refuses::<ContentBlock>(json, length_message((items.len() - 1) as nat, "2 elements in sequence"@))
            &&& items.len() == 1 && part(json, 0, "type"@) == Some(JsonView::String("resource"@))
                ==> refuses::<ContentBlock>(
            json,
                length_message(0, "struct variant ContentBlock::Resource with 1 element"@),
            )
            &&& items.len() > 2 && part(json, 0, "type"@) == Some(JsonView::String("resource"@))
                && is_embedded_resource(items[1])
                    ==> refuses::<ContentBlock>(json, length_message((items.len() - 1) as nat,
                        "1 element in sequence"@))
        },
{
    lemma_kinds();
    if let Some(resource) = part(json, 1, "resource"@) {
        law_embedded_resource(resource);
    }
}

/// A block of content is the one that the JSON says.
pub proof fn law_content_block_fields(json: JsonView, own: ContentBlock)
    requires
        ContentBlock::decoded(json) == Ok::<<ContentBlock as View>::V, Seq<char>>(own@),
    ensures
        tells_block(json, own),
{
    lemma_kinds();
    law_content_block(json);
    if let ContentBlock::Resource { resource } = own {
        law_embedded_resource_fields(part(json, 1, "resource"@)->0, resource);
    }
}

/// What is read is what the JSON says, and nothing is read out of other JSON.
pub proof fn law_content_block_is_read(json: Json, result: Result<ContentBlock, String>)
    requires
        call_ensures(ContentBlock::decode, (&json,), result),
    ensures
        result is Ok <==> is_block(json@),
        result matches Ok(own) ==> tells_block(json@, own),
        result matches Err(message) ==> refuses::<ContentBlock>(
            json@,
            message@,
        ),
{
    law_content_block(json@);
    if let Ok(own) = result {
        law_content_block_fields(json@, own);
    }
}

/// The result is the one that an answer to a tool call calls for. Its blocks are those of the
/// member
/// `content`, each at its place, whatever the flag; the flag is that of the member `isError`.
pub open spec fn is_answer(json: JsonView, result: Result<ToolResult, Error>) -> bool {
    let flag = part(json, 0, "isError"@) == Some(JsonView::Bool(true));
    if json is Object {
        match part(json, 0, "content"@) {
            None => result matches Ok(own) && own.content@.len() == 0 && own.is_error == flag,
            Some(JsonView::Array(items)) => {
                &&& result is Ok <==> forall|i: int| 0 <= i < items.len() ==> is_block(#[trigger] items[i])
                &&& result matches Ok(own) ==> own.is_error == flag && own.content@.len() == items.len() && forall|
                    i: int,
                |
                    0 <= i < items.len() ==> tells_block(#[trigger] items[i], own.content@[i])
                &&& result matches Err(error) ==> (error matches Error::Json(message) && Err::<
                    Seq<<ContentBlock as View>::V>,
                    Seq<char>,
                >(message@) == decoded_list::<ContentBlock>(JsonView::Array(items)))
            },
            Some(other) => result matches Err(Error::Json(message)) && message@ == type_message(
                other,
                "a sequence"@,
            ),
        }
    } else {
        result matches Ok(own) && own.content@.len() == 0 && !own.is_error
    }
}

/// The blocks that are read are those that the items say.
proof fn lemma_blocks(items: Seq<JsonView>)
    ensures
        decoded_list::<ContentBlock>(JsonView::Array(items)) is Ok <==> forall|i: int|
            0 <= i < items.len() ==> is_block(#[trigger] items[i]),
{
    assert forall|i: int| 0 <= i < items.len()
        implies (ContentBlock::decoded(#[trigger] items[i]) is Ok <==> is_block(
        items[i],
    )) by {
        law_content_block(items[i]);
    }
    law_list::<ContentBlock>(JsonView::Array(items));
    if decoded_list::<ContentBlock>(JsonView::Array(items)) is Ok {
        assert forall|i: int| 0 <= i < items.len() implies is_block(#[trigger] items[i]) by {
            assert(ContentBlock::decoded(items[i]) is Ok);
        }
    }
}

/// The content of a result is what the items say.
proof fn lemma_content(items: Seq<JsonView>, content: Seq<ContentBlock>)
    requires
        decoded_list::<ContentBlock>(JsonView::Array(items)) == Ok::<Seq<<ContentBlock as View>::V>, Seq<char>>(
            views(content),
        ),
    ensures
        content.len() == items.len(),
        forall|i: int| 0 <= i < items.len() ==> tells_block(#[trigger] items[i], content[i]),
{
    law_list::<ContentBlock>(JsonView::Array(items));
    assert(views(content).len() == items.len());
    assert forall|i: int| 0 <= i < items.len() implies tells_block(#[trigger] items[i], content[i]) by {
        assert(ContentBlock::decoded(items[i]) == Ok::<<ContentBlock as View>::V, Seq<char>>(views(content)[i]));
        law_content_block_fields(items[i], content[i]);
    }
}

/// A result that the contracts allow for an answer is the one that the answer calls for.
pub proof fn law_answer(json: JsonView, result: Result<ToolResult, Error>)
    requires
        is_tool_result(json, result),
    ensures
        is_answer(json, result),
{
    if let Some(JsonView::Array(items)) = part(json, 0, "content"@) {
        if json is Object {
            lemma_blocks(items);
            if let Ok(own) = result {
                lemma_content(items, own.content@);
            }
        }
    }
    if let Ok(own) = result {
        assert(own@.content.len() == own.content@.len());
    }
}

/// The result of a tool call is read out of the answer: all its blocks and the flag.
pub proof fn law_tool_result(json: Json, result: Result<ToolResult, Error>)
    requires
        call_ensures(ToolResult::from_value, (json,), result),
    ensures
        is_answer(json@, result),
{
    law_answer(json@, result);
}

/// The flag of an answer has no influence on the content: two answers with the same content give
/// the
/// same blocks.
pub proof fn law_flag_is_apart(one: Json, other: Json, first: Result<ToolResult, Error>, second: Result<ToolResult,
    Error>)
    requires
        call_ensures(ToolResult::from_value, (one,), first),
        call_ensures(ToolResult::from_value, (other,), second),
        one@ is Object,
        other@ is Object,
        part(one@, 0, "content"@) == part(other@, 0, "content"@),
    ensures
        first is Ok <==> second is Ok,
        first matches Ok(own) ==> (second matches Ok(its)
            ==> own.content@.len() == its.content@.len() && forall|i: int|
            0 <= i < own.content@.len() ==> (#[trigger] own.content@[i])@ == its.content@[i]@),
{
    if let (Ok(own), Ok(its)) = (first, second) {
        assert(own@.content == its@.content);
        assert forall|i: int| 0 <= i < own.content@.len()
            implies (#[trigger] own.content@[i])@ == its.content@[i]@ by {
            assert(own@.content[i] == own.content@[i]@);
            assert(its@.content[i] == its.content@[i]@);
        }
    }
}

/// What a caller of a tool gets for a reply: the result in the answer, the error of the server, or
/// that the connection is closed.
pub proof fn law_call_tool_result(reply: Reply, result: Result<ToolResult, Error>)
    requires
        call_ensures(call_tool_result, (reply,), result),
    ensures
        match reply {
            Some(Ok(json)) => is_answer(json@, result),
            Some(Err(error)) => result == Err::<ToolResult, Error>(error),
            None => result == Err::<ToolResult, Error>(Error::Closed),
        },
{
    if let Some(Ok(json)) = reply {
        law_answer(json@, result);
    }
}

/// What a caller of any request gets for a reply: the answer as it is, the error of the server, or
/// that the connection is closed.
pub proof fn law_request_result(reply: Reply, result: Result<Json, Error>)
    requires
        call_ensures(request_result, (reply,), result),
    ensures
        match reply {
            Some(own) => result == own,
            None => result == Err::<Json, Error>(Error::Closed),
        },
{
}

/// The tools in a reply: those of the member `tools`, each at its place with its fields; none where
/// there is no such member.
pub proof fn law_list_tools(reply: Reply, result: Result<Vec<Tool>, Error>)
    requires
        call_ensures(list_tools_result, (reply,), result),
    ensures
        match reply {
            None => result == Err::<Vec<Tool>, Error>(Error::Closed),
            Some(Err(error)) => result == Err::<Vec<Tool>, Error>(error),
            Some(Ok(json)) => if json@ is Object {
                match part(json@, 0, "tools"@) {
                    None => result matches Ok(list) && list@.len() == 0,
                    Some(JsonView::Array(items)) => {
                        &&& result is Ok <==> forall|i: int| 0 <= i < items.len() ==> is_tool(#[trigger] items[i])
                        &&& result matches Ok(list) ==> list@.len() == items.len() && forall|i: int|
                            0 <= i < items.len() ==> tells_tool(#[trigger] items[i], list@[i])
                        &&& result matches Err(error) ==> (error matches Error::Json(message) && Err::<
                            Seq<<Tool as View>::V>,
                            Seq<char>,
                        >(message@) == decoded_list::<Tool>(JsonView::Array(items)))
                    },
                    Some(other) => result matches Err(Error::Json(message)) && message@ == type_message(
                        other,
                        "a sequence"@,
                    ),
                }
            } else {
                result matches Ok(list) && list@.len() == 0
            },
        },
{
    if let Some(Ok(json)) = reply {
        if let Ok(list) = result {
            assert(views(list@).len() == list@.len());
        }
        if let Some(JsonView::Array(items)) = part(json@, 0, "tools"@) {
            law_list::<Tool>(JsonView::Array(items));
            assert forall|i: int| 0 <= i < items.len() implies (Tool::decoded(#[trigger] items[i]) is Ok <==> is_tool(
                items[i],
            )) by {
                law_tool(items[i]);
            }
            if json@ is Object {
                if let Ok(list) = result {
                    assert forall|i: int| 0 <= i < items.len() implies tells_tool(#[trigger] items[i], list@[i]) by {
                        assert(Tool::decoded(items[i]) == Ok::<<Tool as View>::V, Seq<char>>(views(list@)[i]));
                        law_tool_fields(items[i], list@[i]);
                    }
                    assert forall|i: int| 0 <= i < items.len() implies is_tool(#[trigger] items[i]) by {
                        assert(Tool::decoded(items[i]) is Ok);
                    }
                }
            }
        }
    }
}

/// The resources in a reply: those of the member `resources`, each at its place with its fields;
/// none where
/// there is no such member.
pub proof fn law_list_resources(reply: Reply, result: Result<Vec<Resource>, Error>)
    requires
        call_ensures(list_resources_result, (reply,), result),
    ensures
        match reply {
            None => result == Err::<Vec<Resource>, Error>(Error::Closed),
            Some(Err(error)) => result == Err::<Vec<Resource>, Error>(error),
            Some(Ok(json)) => if json@ is Object {
                match part(json@, 0, "resources"@) {
                    None => result matches Ok(list) && list@.len() == 0,
                    Some(JsonView::Array(items)) => {
                        &&& result is Ok <==> forall|i: int| 0 <= i < items.len() ==> is_resource(#[trigger] items[i])
                        &&& result matches Ok(list) ==> list@.len() == items.len() && forall|i: int|
                            0 <= i < items.len() ==> tells_resource(#[trigger] items[i], list@[i])
                        &&& result matches Err(error) ==> (error matches Error::Json(message) && Err::<
                            Seq<<Resource as View>::V>,
                            Seq<char>,
                        >(message@) == decoded_list::<Resource>(JsonView::Array(items)))
                    },
                    Some(other) => result matches Err(Error::Json(message)) && message@ == type_message(
                        other,
                        "a sequence"@,
                    ),
                }
            } else {
                result matches Ok(list) && list@.len() == 0
            },
        },
{
    if let Some(Ok(json)) = reply {
        if let Ok(list) = result {
            assert(views(list@).len() == list@.len());
        }
        if let Some(JsonView::Array(items)) = part(json@, 0, "resources"@) {
            law_list::<Resource>(JsonView::Array(items));
            assert forall|i: int| 0 <= i < items.len()
                implies (Resource::decoded(#[trigger] items[i]) is Ok <==> is_resource(
                items[i],
            )) by {
                law_resource(items[i]);
            }
            if json@ is Object {
                if let Ok(list) = result {
                    assert forall|i: int| 0 <= i < items.len()
                        implies tells_resource(#[trigger] items[i], list@[i]) by {
                        assert(Resource::decoded(items[i])
                            == Ok::<<Resource as View>::V, Seq<char>>(views(list@)[i]));
                        law_resource_fields(items[i], list@[i]);
                    }
                    assert forall|i: int| 0 <= i < items.len() implies is_resource(#[trigger] items[i]) by {
                        assert(Resource::decoded(items[i]) is Ok);
                    }
                }
            }
        }
    }
}

/// The prompts in a reply: those of the member `prompts`, each at its place with its fields; none
/// where
/// there is no such member.
pub proof fn law_list_prompts(reply: Reply, result: Result<Vec<Prompt>, Error>)
    requires
        call_ensures(list_prompts_result, (reply,), result),
    ensures
        match reply {
            None => result == Err::<Vec<Prompt>, Error>(Error::Closed),
            Some(Err(error)) => result == Err::<Vec<Prompt>, Error>(error),
            Some(Ok(json)) => if json@ is Object {
                match part(json@, 0, "prompts"@) {
                    None => result matches Ok(list) && list@.len() == 0,
                    Some(JsonView::Array(items)) => {
                        &&& result is Ok <==> forall|i: int| 0 <= i < items.len() ==> is_prompt(#[trigger] items[i])
                        &&& result matches Ok(list) ==> list@.len() == items.len() && forall|i: int|
                            0 <= i < items.len() ==> tells_prompt(#[trigger] items[i], list@[i])
                        &&& result matches Err(error) ==> (error matches Error::Json(message) && Err::<
                            Seq<<Prompt as View>::V>,
                            Seq<char>,
                        >(message@) == decoded_list::<Prompt>(JsonView::Array(items)))
                    },
                    Some(other) => result matches Err(Error::Json(message)) && message@ == type_message(
                        other,
                        "a sequence"@,
                    ),
                }
            } else {
                result matches Ok(list) && list@.len() == 0
            },
        },
{
    if let Some(Ok(json)) = reply {
        if let Ok(list) = result {
            assert(views(list@).len() == list@.len());
        }
        if let Some(JsonView::Array(items)) = part(json@, 0, "prompts"@) {
            law_list::<Prompt>(JsonView::Array(items));
            assert forall|i: int| 0 <= i < items.len()
                implies (Prompt::decoded(#[trigger] items[i]) is Ok <==> is_prompt(
                items[i],
            )) by {
                law_prompt(items[i]);
            }
            if json@ is Object {
                if let Ok(list) = result {
                    assert forall|i: int| 0 <= i < items.len()
                        implies tells_prompt(#[trigger] items[i], list@[i]) by {
                        assert(Prompt::decoded(items[i]) == Ok::<<Prompt as View>::V, Seq<char>>(views(list@)[i]));
                        law_prompt_fields(items[i], list@[i]);
                    }
                    assert forall|i: int| 0 <= i < items.len() implies is_prompt(#[trigger] items[i]) by {
                        assert(Prompt::decoded(items[i]) is Ok);
                    }
                }
            }
        }
    }
}

/// A copy of a tool has the same fields.
pub proof fn law_tool_copy(own: Tool, copy: Tool)
    requires
        call_ensures(Tool::clone, (&own,), copy),
    ensures
        copy.name@ == own.name@,
        same_text_option(copy.description, own.description),
        copy.input_schema@ == own.input_schema@,
{
}

/// A copy of a resource has the same fields.
pub proof fn law_resource_copy(own: Resource, copy: Resource)
    requires
        call_ensures(Resource::clone, (&own,), copy),
    ensures
        copy.uri@ == own.uri@,
        copy.name@ == own.name@,
        same_text_option(copy.description, own.description),
        same_text_option(copy.mime_type, own.mime_type),
{
}

/// A copy of an argument of a prompt has the same fields.
pub proof fn law_prompt_argument_copy(own: PromptArgument, copy: PromptArgument)
    requires
        call_ensures(PromptArgument::clone, (&own,), copy),
    ensures
        copy.name@ == own.name@,
        same_text_option(copy.description, own.description),
        copy.required == own.required,
{
}

/// A copy of a prompt has the same fields.
pub proof fn law_prompt_copy(own: Prompt, copy: Prompt)
    requires
        call_ensures(Prompt::clone, (&own,), copy),
    ensures
        copy.name@ == own.name@,
        same_text_option(copy.description, own.description),
        copy.arguments is Some == own.arguments is Some,
        copy.arguments matches Some(list) ==> list@.len() == own.arguments->0@.len() && forall|i: int|
            0 <= i < list@.len() ==> (#[trigger] list@[i])@ == own.arguments->0@[i]@,
{
    if let Some(list) = copy.arguments {
        let its = own.arguments->0;
        assert(views(list@).len() == views(its@).len());
        assert forall|i: int| 0 <= i < list@.len() implies (#[trigger] list@[i])@ == its@[i]@ by {
            assert(views(list@)[i] == views(its@)[i]);
        }
    }
}

/// A copy of capabilities has the same fields.
pub proof fn law_server_capabilities_copy(own: ServerCapabilities, copy: ServerCapabilities)
    requires
        call_ensures(ServerCapabilities::clone, (&own,), copy),
    ensures
        same_json_option(copy.tools, own.tools),
        same_json_option(copy.resources, own.resources),
        same_json_option(copy.prompts, own.prompts),
        same_json_option(copy.logging, own.logging),
{
}

} // verus!
