//! The types of the Model Context Protocol.
use crate::decode::{
    absent, absent_in, check_record, count_values, decode_list, decoded_list, field, field_of, first, first_of,
    optional_bool, optional_field, optional_text, optional_value, problem, problem_at, problem_in, read_optional_bool,
    read_optional_text, read_optional_value, read_text, record_problem, required_field, required_text, surplus,
    surplus_in, text_read, text_view, value_problem, values_in, views, Decode,
};
use crate::error::Error;
use crate::json::{optional_json, referred_json, Json, JsonView};
use crate::message::{missing, missing_message, type_message, unknown_variant, variant_message, wrong_type};
use crate::text::same_text;
use vstd::prelude::*;

verus! {

/// The version of the protocol that the client speaks.
pub const PROTOCOL_VERSION: &'static str = "2024-11-05";

/// A tool that the server offers.
#[derive(Debug)]
pub struct Tool {
    pub name: String,
    pub description: Option<String>,
    /// The JSON schema of the arguments.
    pub input_schema: Json,
}

/// The model of a [`Tool`].
#[verifier::ext_equal]
pub struct ToolView {
    pub name: Seq<char>,
    pub description: Option<Seq<char>>,
    pub input_schema: JsonView,
}

impl View for Tool {
    type V = ToolView;

    open spec fn view(&self) -> ToolView {
        ToolView {
            name: self.name@,
            description: text_view(self.description),
            input_schema: self.input_schema@,
        }
    }
}

impl Decode for Tool {
    open spec fn decoded(json: JsonView) -> Result<ToolView, Seq<char>> {
        let name = required_text(field_of(json, 0, "name"@));
        let description = optional_text(field_of(json, 1, "description"@));
        let input_schema: Result<Option<JsonView>, Seq<char>> = Ok(field_of(json, 2, "inputSchema"@));
        let n = values_in(json);
        let fields = "struct Tool with 3 elements"@;
        let members = first(
            problem(description),
            first(
                problem(name),
                first(absent(name, "name"@), absent(input_schema, "inputSchema"@)),
            ),
        );
        let values = first(
            value_problem(n, 0, fields, problem(name)),
            first(
                value_problem(n, 1, fields, problem(description)),
                first(value_problem(n, 2, fields, None), surplus(n, 3, "fewer elements in array"@)),
            ),
        );
        match record_problem(json, "struct Tool"@, members, values) {
            Some(message) => Err(message),
            None => Ok(
                ToolView { name: name->Ok_0->0, description: description->Ok_0, input_schema: input_schema->Ok_0->0 },
            ),
        }
    }

    fn decode(json: &Json) -> (result: Result<Tool, String>) {
        let name = read_text(field(json, 0, "name"));
        let description = read_optional_text(field(json, 1, "description"));
        let input_schema: Result<Option<&Json>, String> = Ok(field(json, 2, "inputSchema"));
        let n: usize = count_values(json);
        let fields = "struct Tool with 3 elements";
        let members = first_of(
            problem_in(&description),
            first_of(
                problem_in(&name),
                first_of(absent_in(&name, "name"), absent_in(&input_schema, "inputSchema")),
            ),
        );
        let values = first_of(
            problem_at(n, 0, fields, problem_in(&name)),
            first_of(
                problem_at(n, 1, fields, problem_in(&description)),
                first_of(problem_at(n, 2, fields, None), surplus_in(n, 3, "fewer elements in array")),
            ),
        );
        if let Some(message) = check_record(json, "struct Tool", members, values) {
            return Err(message);
        }
        match (name, description, input_schema) {
            (Ok(Some(name)), Ok(description), Ok(Some(input_schema))) => Ok(
                Tool { name, description, input_schema: input_schema.clone() },
            ),
            _ => {
                assert(false);
                Err(String::new())
            },
        }
    }
}

impl Clone for Tool {
    fn clone(&self) -> (copy: Tool)
        ensures
            copy@ == self@,
    {
        Tool {
            name: self.name.clone(),
            description: self.description.clone(),
            input_schema: self.input_schema.clone(),
        }
    }
}

/// A resource that the server offers.
#[derive(Debug)]
pub struct Resource {
    pub uri: String,
    pub name: String,
    pub description: Option<String>,
    pub mime_type: Option<String>,
}

/// The model of a [`Resource`].
#[verifier::ext_equal]
pub struct ResourceView {
    pub uri: Seq<char>,
    pub name: Seq<char>,
    pub description: Option<Seq<char>>,
    pub mime_type: Option<Seq<char>>,
}

impl View for Resource {
    type V = ResourceView;

    open spec fn view(&self) -> ResourceView {
        ResourceView {
            uri: self.uri@,
            name: self.name@,
            description: text_view(self.description),
            mime_type: text_view(self.mime_type),
        }
    }
}

impl Decode for Resource {
    open spec fn decoded(json: JsonView) -> Result<ResourceView, Seq<char>> {
        let uri = required_text(field_of(json, 0, "uri"@));
        let name = required_text(field_of(json, 1, "name"@));
        let description = optional_text(field_of(json, 2, "description"@));
        let mime_type = optional_text(field_of(json, 3, "mimeType"@));
        let n = values_in(json);
        let fields = "struct Resource with 4 elements"@;
        let members = first(
            problem(description),
            first(
                problem(mime_type),
                first(
                    problem(name),
                    first(
                        problem(uri),
                        first(absent(uri, "uri"@), absent(name, "name"@)),
                    ),
                ),
            ),
        );
        let values = first(
            value_problem(n, 0, fields, problem(uri)),
            first(
                value_problem(n, 1, fields, problem(name)),
                first(
                    value_problem(n, 2, fields, problem(description)),
                    first(value_problem(n, 3, fields, problem(mime_type)), surplus(n, 4, "fewer elements in array"@)),
                ),
            ),
        );
        match record_problem(json, "struct Resource"@, members, values) {
            Some(message) => Err(message),
            None => Ok(
                ResourceView {
                    uri: uri->Ok_0->0,
                    name: name->Ok_0->0,
                    description: description->Ok_0,
                    mime_type: mime_type->Ok_0,
                },
            ),
        }
    }

    fn decode(json: &Json) -> (result: Result<Resource, String>) {
        let uri = read_text(field(json, 0, "uri"));
        let name = read_text(field(json, 1, "name"));
        let description = read_optional_text(field(json, 2, "description"));
        let mime_type = read_optional_text(field(json, 3, "mimeType"));
        let n: usize = count_values(json);
        let fields = "struct Resource with 4 elements";
        let members = first_of(
            problem_in(&description),
            first_of(
                problem_in(&mime_type),
                first_of(
                    problem_in(&name),
                    first_of(
                        problem_in(&uri),
                        first_of(absent_in(&uri, "uri"), absent_in(&name, "name")),
                    ),
                ),
            ),
        );
        let values = first_of(
            problem_at(n, 0, fields, problem_in(&uri)),
            first_of(
                problem_at(n, 1, fields, problem_in(&name)),
                first_of(
                    problem_at(n, 2, fields, problem_in(&description)),
                    first_of(
                        problem_at(n, 3, fields, problem_in(&mime_type)),
                        surplus_in(n, 4, "fewer elements in array"),
                    ),
                ),
            ),
        );
        if let Some(message) = check_record(json, "struct Resource", members, values) {
            return Err(message);
        }
        match (uri, name, description, mime_type) {
            (Ok(Some(uri)), Ok(Some(name)), Ok(description), Ok(mime_type)) => Ok(
                Resource { uri, name, description, mime_type },
            ),
            _ => {
                assert(false);
                Err(String::new())
            },
        }
    }
}

impl Clone for Resource {
    fn clone(&self) -> (copy: Resource)
        ensures
            copy@ == self@,
    {
        Resource {
            uri: self.uri.clone(),
            name: self.name.clone(),
            description: self.description.clone(),
            mime_type: self.mime_type.clone(),
        }
    }
}

/// An argument of a prompt.
#[derive(Debug)]
pub struct PromptArgument {
    pub name: String,
    pub description: Option<String>,
    pub required: Option<bool>,
}

/// The model of a [`PromptArgument`].
#[verifier::ext_equal]
pub struct PromptArgumentView {
    pub name: Seq<char>,
    pub description: Option<Seq<char>>,
    pub required: Option<bool>,
}

impl View for PromptArgument {
    type V = PromptArgumentView;

    open spec fn view(&self) -> PromptArgumentView {
        PromptArgumentView {
            name: self.name@,
            description: text_view(self.description),
            required: self.required,
        }
    }
}

impl Decode for PromptArgument {
    open spec fn decoded(json: JsonView) -> Result<PromptArgumentView, Seq<char>> {
        let name = required_text(field_of(json, 0, "name"@));
        let description = optional_text(field_of(json, 1, "description"@));
        let required = optional_bool(field_of(json, 2, "required"@));
        let n = values_in(json);
        let fields = "struct PromptArgument with 3 elements"@;
        let members = first(
            problem(description),
            first(
                problem(name),
                first(problem(required), absent(name, "name"@)),
            ),
        );
        let values = first(
            value_problem(n, 0, fields, problem(name)),
            first(
                value_problem(n, 1, fields, problem(description)),
                first(value_problem(n, 2, fields, problem(required)), surplus(n, 3, "fewer elements in array"@)),
            ),
        );
        match record_problem(json, "struct PromptArgument"@, members, values) {
            Some(message) => Err(message),
            None => Ok(
                PromptArgumentView { name: name->Ok_0->0, description: description->Ok_0, required: required->Ok_0 },
            ),
        }
    }

    fn decode(json: &Json) -> (result: Result<PromptArgument, String>) {
        let name = read_text(field(json, 0, "name"));
        let description = read_optional_text(field(json, 1, "description"));
        let required = read_optional_bool(field(json, 2, "required"));
        let n: usize = count_values(json);
        let fields = "struct PromptArgument with 3 elements";
        let members = first_of(
            problem_in(&description),
            first_of(
                problem_in(&name),
                first_of(problem_in(&required), absent_in(&name, "name")),
            ),
        );
        let values = first_of(
            problem_at(n, 0, fields, problem_in(&name)),
            first_of(
                problem_at(n, 1, fields, problem_in(&description)),
                first_of(problem_at(n, 2, fields, problem_in(&required)), surplus_in(n, 3, "fewer elements in array")),
            ),
        );
        if let Some(message) = check_record(json, "struct PromptArgument", members, values) {
            return Err(message);
        }
        match (name, description, required) {
            (Ok(Some(name)), Ok(description), Ok(required)) => Ok(
                PromptArgument { name, description, required },
            ),
            _ => {
                assert(false);
                Err(String::new())
            },
        }
    }
}

impl Clone for PromptArgument {
    fn clone(&self) -> (copy: PromptArgument)
        ensures
            copy@ == self@,
    {
        PromptArgument {
            name: self.name.clone(),
            description: self.description.clone(),
            required: self.required,
        }
    }
}

/// A prompt that the server offers.
#[derive(Debug)]
pub struct Prompt {
    pub name: String,
    pub description: Option<String>,
    pub arguments: Option<Vec<PromptArgument>>,
}

/// The model of a [`Prompt`].
#[verifier::ext_equal]
pub struct PromptView {
    pub name: Seq<char>,
    pub description: Option<Seq<char>>,
    pub arguments: Option<Seq<PromptArgumentView>>,
}

/// The view of an optional list of arguments.
pub open spec fn arguments_view(arguments: Option<Vec<PromptArgument>>) -> Option<Seq<PromptArgumentView>> {
    match arguments {
        Some(list) => Some(views(list@)),
        None => None,
    }
}

impl View for Prompt {
    type V = PromptView;

    open spec fn view(&self) -> PromptView {
        PromptView {
            name: self.name@,
            description: text_view(self.description),
            arguments: arguments_view(self.arguments),
        }
    }
}

/// The arguments of a prompt, which may be missing.
pub open spec fn optional_arguments(value: Option<JsonView>) -> Result<Option<Seq<PromptArgumentView>>, Seq<char>> {
    optional_field(value, |json: JsonView| decoded_list::<PromptArgument>(json))
}

/// The view of arguments that were read, or of the message.
pub open spec fn arguments_read(read: Result<Option<Vec<PromptArgument>>, String>) -> Result<
    Option<Seq<PromptArgumentView>>,
    Seq<char>,
> {
    match read {
        Ok(arguments) => Ok(arguments_view(arguments)),
        Err(message) => Err(message@),
    }
}

/// Reads the arguments of a prompt, which may be missing.
fn read_arguments(value: Option<&Json>) -> (read: Result<Option<Vec<PromptArgument>>, String>)
    ensures
        arguments_read(read) == optional_arguments(referred_json(value)),
{
    match value {
        None => Ok(None),
        Some(Json::Null) => Ok(None),
        Some(json) => match decode_list::<PromptArgument>(json) {
            Ok(arguments) => Ok(Some(arguments)),
            Err(message) => Err(message),
        },
    }
}

impl Decode for Prompt {
    open spec fn decoded(json: JsonView) -> Result<PromptView, Seq<char>> {
        let name = required_text(field_of(json, 0, "name"@));
        let description = optional_text(field_of(json, 1, "description"@));
        let arguments = optional_arguments(field_of(json, 2, "arguments"@));
        let n = values_in(json);
        let fields = "struct Prompt with 3 elements"@;
        let members = first(
            problem(arguments),
            first(
                problem(description),
                first(problem(name), absent(name, "name"@)),
            ),
        );
        let values = first(
            value_problem(n, 0, fields, problem(name)),
            first(
                value_problem(n, 1, fields, problem(description)),
                first(value_problem(n, 2, fields, problem(arguments)), surplus(n, 3, "fewer elements in array"@)),
            ),
        );
        match record_problem(json, "struct Prompt"@, members, values) {
            Some(message) => Err(message),
            None => Ok(
                PromptView { name: name->Ok_0->0, description: description->Ok_0, arguments: arguments->Ok_0 },
            ),
        }
    }

    fn decode(json: &Json) -> (result: Result<Prompt, String>) {
        let name = read_text(field(json, 0, "name"));
        let description = read_optional_text(field(json, 1, "description"));
        let arguments = read_arguments(field(json, 2, "arguments"));
        let n: usize = count_values(json);
        let fields = "struct Prompt with 3 elements";
        let members = first_of(
            problem_in(&arguments),
            first_of(
                problem_in(&description),
                first_of(problem_in(&name), absent_in(&name, "name")),
            ),
        );
        let values = first_of(
            problem_at(n, 0, fields, problem_in(&name)),
            first_of(
                problem_at(n, 1, fields, problem_in(&description)),
                first_of(problem_at(n, 2, fields, problem_in(&arguments)), surplus_in(n, 3, "fewer elements in array")),
            ),
        );
        if let Some(message) = check_record(json, "struct Prompt", members, values) {
            return Err(message);
        }
        match (name, description, arguments) {
            (Ok(Some(name)), Ok(description), Ok(arguments)) => Ok(
                Prompt { name, description, arguments },
            ),
            _ => {
                assert(false);
                Err(String::new())
            },
        }
    }
}

impl Clone for Prompt {
    fn clone(&self) -> (copy: Prompt)
        ensures
            copy@ == self@,
    {
        let arguments: Option<Vec<PromptArgument>> = match &self.arguments {
            Some(list) => {
                let mut copies: Vec<PromptArgument> = Vec::new();
                let mut i: usize = 0;
                while i < list.len()
                    invariant
                        i <= list@.len(),
                        copies@.len() == i,
                        forall|k: int| 0 <= k < i ==> (#[trigger] copies@[k])@ == list@[k]@,
                    decreases list@.len() - i,
                {
                    copies.push(list[i].clone());
                    i += 1;
                }
                assert(views(copies@) =~= views(list@));
                Some(copies)
            },
            None => None,
        };
        Prompt { name: self.name.clone(), description: self.description.clone(), arguments }
    }
}

/// A resource within the result of a tool.
#[derive(Debug)]
pub struct EmbeddedResource {
    pub uri: String,
    pub text: Option<String>,
    pub blob: Option<String>,
}

/// The model of an [`EmbeddedResource`].
#[verifier::ext_equal]
pub struct EmbeddedResourceView {
    pub uri: Seq<char>,
    pub text: Option<Seq<char>>,
    pub blob: Option<Seq<char>>,
}

impl View for EmbeddedResource {
    type V = EmbeddedResourceView;

    open spec fn view(&self) -> EmbeddedResourceView {
        EmbeddedResourceView { uri: self.uri@, text: text_view(self.text), blob: text_view(self.blob) }
    }
}

impl Decode for EmbeddedResource {
    open spec fn decoded(json: JsonView) -> Result<EmbeddedResourceView, Seq<char>> {
        let uri = required_text(field_of(json, 0, "uri"@));
        let text = optional_text(field_of(json, 1, "text"@));
        let blob = optional_text(field_of(json, 2, "blob"@));
        let n = values_in(json);
        let fields = "struct EmbeddedResource with 3 elements"@;
        let members = first(
            problem(blob),
            first(
                problem(text),
                first(problem(uri), absent(uri, "uri"@)),
            ),
        );
        let values = first(
            value_problem(n, 0, fields, problem(uri)),
            first(
                value_problem(n, 1, fields, problem(text)),
                first(value_problem(n, 2, fields, problem(blob)), surplus(n, 3, "3 elements in sequence"@)),
            ),
        );
        match record_problem(json, "struct EmbeddedResource"@, members, values) {
            Some(message) => Err(message),
            None => Ok(
                EmbeddedResourceView { uri: uri->Ok_0->0, text: text->Ok_0, blob: blob->Ok_0 },
            ),
        }
    }

    fn decode(json: &Json) -> (result: Result<EmbeddedResource, String>) {
        let uri = read_text(field(json, 0, "uri"));
        let text = read_optional_text(field(json, 1, "text"));
        let blob = read_optional_text(field(json, 2, "blob"));
        let n: usize = count_values(json);
        let fields = "struct EmbeddedResource with 3 elements";
        let members = first_of(
            problem_in(&blob),
            first_of(
                problem_in(&text),
                first_of(problem_in(&uri), absent_in(&uri, "uri")),
            ),
        );
        let values = first_of(
            problem_at(n, 0, fields, problem_in(&uri)),
            first_of(
                problem_at(n, 1, fields, problem_in(&text)),
                first_of(problem_at(n, 2, fields, problem_in(&blob)), surplus_in(n, 3, "3 elements in sequence")),
            ),
        );
        if let Some(message) = check_record(json, "struct EmbeddedResource", members, values) {
            return Err(message);
        }
        match (uri, text, blob) {
            (Ok(Some(uri)), Ok(text), Ok(blob)) => Ok(
                EmbeddedResource { uri, text, blob },
            ),
            _ => {
                assert(false);
                Err(String::new())
            },
        }
    }
}

/// A part of the result of a tool.
#[derive(Debug)]
pub enum ContentBlock {
    Text { text: String },
    Image { data: String, mime_type: String },
    Resource { resource: EmbeddedResource },
}

/// The model of a [`ContentBlock`].
#[verifier::ext_equal]
pub enum ContentBlockView {
    Text { text: Seq<char> },
    Image { data: Seq<char>, mime_type: Seq<char> },
    Resource { resource: EmbeddedResourceView },
}

impl View for ContentBlock {
    type V = ContentBlockView;

    open spec fn view(&self) -> ContentBlockView {
        match self {
            ContentBlock::Text { text } => ContentBlockView::Text { text: text@ },
            ContentBlock::Image { data, mime_type } => ContentBlockView::Image {
                data: data@,
                mime_type: mime_type@,
            },
            ContentBlock::Resource { resource } => ContentBlockView::Resource { resource: resource@ },
        }
    }
}

/// The kind of a block of content: one of three names.
pub open spec fn kind_of(json: JsonView) -> Result<Seq<char>, Seq<char>> {
    match json {
        JsonView::String(kind) => if kind == "text"@ || kind == "image"@ || kind == "resource"@ {
            Ok(kind)
        } else {
            Err(variant_message(kind))
        },
        _ => Err(type_message(json, "variant identifier"@)),
    }
}

/// How many values an array has after the kind of a block.
pub open spec fn values_after_kind(json: JsonView) -> nat {
    (values_in(json) - 1) as nat
}

/// The block of text that the JSON stands for.
pub open spec fn text_block(json: JsonView) -> Result<ContentBlockView, Seq<char>> {
    let text = required_text(field_of(json, 1, "text"@));
    let n = values_after_kind(json);
    let fields = "struct variant ContentBlock::Text with 1 element"@;
    let members = first(problem(text), absent(text, "text"@));
    let values = first(value_problem(n, 0, fields, problem(text)), surplus(n, 1, "1 element in sequence"@));
    match record_problem(json, "struct variant ContentBlock::Text"@, members, values) {
        Some(message) => Err(message),
        None => Ok(ContentBlockView::Text { text: text->Ok_0->0 }),
    }
}

/// The image that the JSON stands for.
pub open spec fn image_block(json: JsonView) -> Result<ContentBlockView, Seq<char>> {
    let data = required_text(field_of(json, 1, "data"@));
    let mime_type = required_text(field_of(json, 2, "mimeType"@));
    let n = values_after_kind(json);
    let fields = "struct variant ContentBlock::Image with 2 elements"@;
    let members = first(
        problem(data),
        first(problem(mime_type), first(absent(data, "data"@), absent(mime_type, "mimeType"@))),
    );
    let values = first(
        value_problem(n, 0, fields, problem(data)),
        first(value_problem(n, 1, fields, problem(mime_type)), surplus(n, 2, "2 elements in sequence"@)),
    );
    match record_problem(json, "struct variant ContentBlock::Image"@, members, values) {
        Some(message) => Err(message),
        None => Ok(ContentBlockView::Image { data: data->Ok_0->0, mime_type: mime_type->Ok_0->0 }),
    }
}

/// The embedded resource that the JSON stands for.
pub open spec fn resource_block(json: JsonView) -> Result<ContentBlockView, Seq<char>> {
    let resource = required_field(
        field_of(json, 1, "resource"@),
        |inner: JsonView| EmbeddedResource::decoded(inner),
    );
    let n = values_after_kind(json);
    let fields = "struct variant ContentBlock::Resource with 1 element"@;
    let members = first(problem(resource), absent(resource, "resource"@));
    let values = first(value_problem(n, 0, fields, problem(resource)), surplus(n, 1, "1 element in sequence"@));
    match record_problem(json, "struct variant ContentBlock::Resource"@, members, values) {
        Some(message) => Err(message),
        None => Ok(ContentBlockView::Resource { resource: resource->Ok_0->0 }),
    }
}

/// A block that was read, or the message.
pub open spec fn block_read(read: Result<ContentBlock, String>) -> Result<ContentBlockView, Seq<char>> {
    match read {
        Ok(block) => Ok(block@),
        Err(message) => Err(message@),
    }
}

/// Reads the kind of a block of content.
fn read_kind(value: Option<&Json>) -> (read: Result<Option<String>, String>)
    ensures
        text_read(read) == required_field(referred_json(value), |json: JsonView| kind_of(json)),
{
    match value {
        None => Ok(None),
        Some(json) => match json.as_str() {
            Some(kind) => if same_text(kind, "text") || same_text(kind, "image") || same_text(kind, "resource") {
                Ok(Some(kind.to_owned()))
            } else {
                Err(unknown_variant(kind))
            },
            None => Err(wrong_type(json, "variant identifier")),
        },
    }
}

/// Counts the values of an array after the kind of a block.
fn count_after_kind(json: &Json) -> (n: usize)
    requires
        json@ is Array ==> values_in(json@) > 0,
    ensures
        json@ is Array ==> n == values_after_kind(json@),
{
    match json {
        Json::Array(items) => items.len() - 1,
        _ => 0,
    }
}

/// Reads a block of text.
fn read_text_block(json: &Json) -> (read: Result<ContentBlock, String>)
    requires
        json@ is Array ==> values_in(json@) > 0,
    ensures
        block_read(read) == text_block(json@),
{
    let text = read_text(field(json, 1, "text"));
    let n: usize = count_after_kind(json);
    let fields = "struct variant ContentBlock::Text with 1 element";
    let members = first_of(problem_in(&text), absent_in(&text, "text"));
    let values = first_of(problem_at(n, 0, fields, problem_in(&text)), surplus_in(n, 1, "1 element in sequence"));
    if let Some(message) = check_record(json, "struct variant ContentBlock::Text", members, values) {
        return Err(message);
    }
    match text {
        Ok(Some(text)) => Ok(ContentBlock::Text { text }),
        _ => {
            assert(false);
            Err(String::new())
        },
    }
}

/// Reads an image.
fn read_image_block(json: &Json) -> (read: Result<ContentBlock, String>)
    requires
        json@ is Array ==> values_in(json@) > 0,
    ensures
        block_read(read) == image_block(json@),
{
    let data = read_text(field(json, 1, "data"));
    let mime_type = read_text(field(json, 2, "mimeType"));
    let n: usize = count_after_kind(json);
    let fields = "struct variant ContentBlock::Image with 2 elements";
    let members = first_of(
        problem_in(&data),
        first_of(problem_in(&mime_type), first_of(absent_in(&data, "data"), absent_in(&mime_type, "mimeType"))),
    );
    let values = first_of(
        problem_at(n, 0, fields, problem_in(&data)),
        first_of(problem_at(n, 1, fields, problem_in(&mime_type)), surplus_in(n, 2, "2 elements in sequence")),
    );
    if let Some(message) = check_record(json, "struct variant ContentBlock::Image", members, values) {
        return Err(message);
    }
    match (data, mime_type) {
        (Ok(Some(data)), Ok(Some(mime_type))) => Ok(ContentBlock::Image { data, mime_type }),
        _ => {
            assert(false);
            Err(String::new())
        },
    }
}

/// Reads an embedded resource.
fn read_resource_block(json: &Json) -> (read: Result<ContentBlock, String>)
    requires
        json@ is Array ==> values_in(json@) > 0,
    ensures
        block_read(read) == resource_block(json@),
{
    let resource: Result<Option<EmbeddedResource>, String> = match field(json, 1, "resource") {
        None => Ok(None),
        Some(inner) => match EmbeddedResource::decode(inner) {
            Ok(resource) => Ok(Some(resource)),
            Err(message) => Err(message),
        },
    };
    let n: usize = count_after_kind(json);
    let fields = "struct variant ContentBlock::Resource with 1 element";
    let members = first_of(problem_in(&resource), absent_in(&resource, "resource"));
    let values = first_of(problem_at(n, 0, fields, problem_in(&resource)), surplus_in(n, 1, "1 element in sequence"));
    if let Some(message) = check_record(json, "struct variant ContentBlock::Resource", members, values) {
        return Err(message);
    }
    match resource {
        Ok(Some(resource)) => Ok(ContentBlock::Resource { resource }),
        _ => {
            assert(false);
            Err(String::new())
        },
    }
}

impl Decode for ContentBlock {
    /// The member `type`, which comes first in an array, says which kind of block it is.
    open spec fn decoded(json: JsonView) -> Result<ContentBlockView, Seq<char>> {
        if json is Object || json is Array {
            match required_field(field_of(json, 0, "type"@), |value: JsonView| kind_of(value)) {
                Ok(Some(kind)) => if kind == "text"@ {
                    text_block(json)
                } else if kind == "image"@ {
                    image_block(json)
                } else {
                    resource_block(json)
                },
                Ok(None) => Err(missing_message("type"@)),
                Err(message) => Err(message),
            }
        } else {
            Err(type_message(json, "internally tagged enum ContentBlock"@))
        }
    }

    fn decode(json: &Json) -> (result: Result<ContentBlock, String>) {
        match json {
            Json::Object(_) => {},
            Json::Array(_) => {},
            _ => {
                return Err(wrong_type(json, "internally tagged enum ContentBlock"));
            },
        }
        let kind = match read_kind(field(json, 0, "type")) {
            Ok(Some(kind)) => kind,
            Ok(None) => {
                return Err(missing("type"));
            },
            Err(message) => {
                return Err(message);
            },
        };
        if same_text(kind.as_str(), "text") {
            read_text_block(json)
        } else if same_text(kind.as_str(), "image") {
            read_image_block(json)
        } else {
            read_resource_block(json)
        }
    }
}

/// The result of a tool call.
#[derive(Debug)]
pub struct ToolResult {
    pub content: Vec<ContentBlock>,
    pub is_error: bool,
}

/// The model of a [`ToolResult`].
#[verifier::ext_equal]
pub struct ToolResultView {
    pub content: Seq<ContentBlockView>,
    pub is_error: bool,
}

impl View for ToolResult {
    type V = ToolResultView;

    open spec fn view(&self) -> ToolResultView {
        ToolResultView { content: views(self.content@), is_error: self.is_error }
    }
}

/// The result of a tool call that the JSON stands for, or the message where it stands for none.
/// Without a member `content` it has no content, and it is an error only where the member `isError`
/// says so.
pub open spec fn tool_result_of(json: JsonView) -> Result<ToolResultView, Seq<char>> {
    let is_error = json.member("isError"@) == Some(JsonView::Bool(true));
    match json.member("content"@) {
        Some(list) => match decoded_list::<ContentBlock>(list) {
            Ok(content) => Ok(ToolResultView { content, is_error }),
            Err(message) => Err(message),
        },
        None => Ok(ToolResultView { content: Seq::empty(), is_error }),
    }
}

/// The result is the one that the JSON stands for, or the error with the message.
pub open spec fn is_tool_result(json: JsonView, result: Result<ToolResult, Error>) -> bool {
    match tool_result_of(json) {
        Ok(value) => result matches Ok(own) && own@ == value,
        Err(message) => result matches Err(Error::Json(own)) && own@ == message,
    }
}

impl ToolResult {
    /// Reads the result of a tool call.
    pub fn from_value(json: Json) -> (result: Result<ToolResult, Error>)
        ensures
            is_tool_result(json@, result),
    {
        let content: Vec<ContentBlock> = match json.get("content") {
            Some(list) => match decode_list::<ContentBlock>(list) {
                Ok(content) => content,
                Err(message) => {
                    return Err(Error::Json(message));
                },
            },
            None => Vec::new(),
        };
        let is_error: bool = match json.get("isError") {
            Some(flag) => match flag.as_bool() {
                Some(b) => b,
                None => false,
            },
            None => false,
        };
        assert(json@.member("content"@) is None ==> views(content@) =~= Seq::<ContentBlockView>::empty());
        Ok(ToolResult { content, is_error })
    }
}

/// A floating-point number, given by the bits of its IEEE 754 double.
#[derive(Clone, Copy, Debug, PartialEq, Eq, Structural)]
pub struct Double {
    pub bits: u64,
}

/// A progress report of a running tool call.
#[derive(Debug)]
pub struct ProgressUpdate {
    pub progress: Double,
    pub total: Option<Double>,
    pub message: Option<String>,
}

/// The model of a [`ProgressUpdate`].
#[verifier::ext_equal]
pub struct ProgressUpdateView {
    pub progress: u64,
    pub total: Option<u64>,
    pub message: Option<Seq<char>>,
}

impl View for ProgressUpdate {
    type V = ProgressUpdateView;

    open spec fn view(&self) -> ProgressUpdateView {
        ProgressUpdateView {
            progress: self.progress.bits,
            total: match self.total {
                Some(total) => Some(total.bits),
                None => None,
            },
            message: text_view(self.message),
        }
    }
}

/// The bits of the number in a member; `None` where the member is missing or no number.
pub open spec fn double_member(json: JsonView, name: Seq<char>) -> Option<u64> {
    match json.member(name) {
        Some(value) => value.as_double(),
        None => None,
    }
}

/// The progress report in the parameters of a notification. A progress that is missing or no
/// number counts as zero, whose bits are zero; a total or a message that is missing or of another
/// type is left out.
pub open spec fn progress_of(params: JsonView) -> ProgressUpdateView {
    ProgressUpdateView {
        progress: match double_member(params, "progress"@) {
            Some(bits) => bits,
            None => 0,
        },
        total: double_member(params, "total"@),
        message: match params.member("message"@) {
            Some(value) => value.as_text(),
            None => None,
        },
    }
}

/// The number in a member, by its bits.
fn read_double(json: &Json, name: &str) -> (bits: Option<u64>)
    ensures
        bits == double_member(json@, name@),
{
    match json.get(name) {
        Some(value) => value.as_double(),
        None => None,
    }
}

impl ProgressUpdate {
    /// Reads the progress report out of the parameters of a notification.
    pub fn from_params(params: &Json) -> (update: ProgressUpdate)
        ensures
            update@ == progress_of(params@),
    {
        let progress: Double = match read_double(params, "progress") {
            Some(bits) => Double { bits },
            None => Double { bits: 0 },
        };
        let total: Option<Double> = match read_double(params, "total") {
            Some(bits) => Some(Double { bits }),
            None => None,
        };
        let message: Option<String> = match params.get("message") {
            Some(value) => match value.as_str() {
                Some(text) => Some(text.to_owned()),
                None => None,
            },
            None => None,
        };
        ProgressUpdate { progress, total, message }
    }
}

/// What a streaming tool call yields.
#[derive(Debug)]
pub enum ToolEvent {
    Progress(ProgressUpdate),
    Result(ToolResult),
}

/// What the server says that it can do.
#[derive(Debug)]
pub struct ServerCapabilities {
    pub tools: Option<Json>,
    pub resources: Option<Json>,
    pub prompts: Option<Json>,
    pub logging: Option<Json>,
}

/// The model of [`ServerCapabilities`].
#[verifier::ext_equal]
pub struct ServerCapabilitiesView {
    pub tools: Option<JsonView>,
    pub resources: Option<JsonView>,
    pub prompts: Option<JsonView>,
    pub logging: Option<JsonView>,
}

impl View for ServerCapabilities {
    type V = ServerCapabilitiesView;

    open spec fn view(&self) -> ServerCapabilitiesView {
        ServerCapabilitiesView {
            tools: optional_json(self.tools),
            resources: optional_json(self.resources),
            prompts: optional_json(self.prompts),
            logging: optional_json(self.logging),
        }
    }
}

/// No capability at all.
pub open spec fn no_capabilities() -> ServerCapabilitiesView {
    ServerCapabilitiesView { tools: None, resources: None, prompts: None, logging: None }
}

impl Default for ServerCapabilities {
    fn default() -> (capabilities: ServerCapabilities)
        ensures
            capabilities@ == no_capabilities(),
    {
        ServerCapabilities { tools: None, resources: None, prompts: None, logging: None }
    }
}

impl Decode for ServerCapabilities {
    open spec fn decoded(json: JsonView) -> Result<ServerCapabilitiesView, Seq<char>> {
        let tools = optional_value(field_of(json, 0, "tools"@));
        let resources = optional_value(field_of(json, 1, "resources"@));
        let prompts = optional_value(field_of(json, 2, "prompts"@));
        let logging = optional_value(field_of(json, 3, "logging"@));
        let n = values_in(json);
        let fields = "struct ServerCapabilities with 4 elements"@;
        let members = None::<Seq<char>>;
        let values = first(
            value_problem(n, 0, fields, None),
            first(
                value_problem(n, 1, fields, None),
                first(
                    value_problem(n, 2, fields, None),
                    first(value_problem(n, 3, fields, None), surplus(n, 4, "fewer elements in array"@)),
                ),
            ),
        );
        match record_problem(json, "struct ServerCapabilities"@, members, values) {
            Some(message) => Err(message),
            None => Ok(
                ServerCapabilitiesView { tools, resources, prompts, logging },
            ),
        }
    }

    fn decode(json: &Json) -> (result: Result<ServerCapabilities, String>) {
        let n: usize = count_values(json);
        let fields = "struct ServerCapabilities with 4 elements";
        let members = None;
        let values = first_of(
            problem_at(n, 0, fields, None),
            first_of(
                problem_at(n, 1, fields, None),
                first_of(
                    problem_at(n, 2, fields, None),
                    first_of(problem_at(n, 3, fields, None), surplus_in(n, 4, "fewer elements in array")),
                ),
            ),
        );
        if let Some(message) = check_record(json, "struct ServerCapabilities", members, values) {
            return Err(message);
        }
        Ok(
            ServerCapabilities {
                tools: read_optional_value(field(json, 0, "tools")),
                resources: read_optional_value(field(json, 1, "resources")),
                prompts: read_optional_value(field(json, 2, "prompts")),
                logging: read_optional_value(field(json, 3, "logging")),
            },
        )
    }
}

/// Copies an optional value.
fn copy_optional(value: &Option<Json>) -> (copy: Option<Json>)
    ensures
        optional_json(copy) == optional_json(*value),
{
    match value {
        Some(json) => Some(json.clone()),
        None => None,
    }
}

impl Clone for ServerCapabilities {
    fn clone(&self) -> (copy: ServerCapabilities)
        ensures
            copy@ == self@,
    {
        ServerCapabilities {
            tools: copy_optional(&self.tools),
            resources: copy_optional(&self.resources),
            prompts: copy_optional(&self.prompts),
            logging: copy_optional(&self.logging),
        }
    }
}

} // verus!
