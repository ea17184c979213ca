//! A JSONC document held as a `jsonc_parser` syntax tree.
//!
//! The tree is only ever reached through its root, which the functions below take by
//! reference or by mutable reference. A property is addressed by its name and an element
//! of its list by its index, so no handle into the tree outlives a call.

use crate::entry::{value_entry, EntryView};
use crate::text::is_empty_object;
use jsonc_parser::cst::{CstInputValue, CstRootNode};
use jsonc_parser::ParseOptions;
use serde_json::Value;
use vstd::prelude::*;

verus! {

/// `jsonc_parser::cst::CstRootNode`, the root of a syntax tree that keeps every comment,
/// blank and comma of the text it was parsed from.
#[verifier::external_type_specification]
#[verifier::external_body]
pub struct ExCstRootNode(jsonc_parser::cst::CstRootNode);

/// What the parser lets through beyond strict JSON.
#[derive(Clone, Copy, Debug, PartialEq, Eq, Structural)]
pub struct JsoncOptions {
    pub allow_comments: bool,
    pub allow_loose_object_property_names: bool,
    pub allow_trailing_commas: bool,
    pub allow_missing_commas: bool,
    pub allow_single_quoted_strings: bool,
    pub allow_hexadecimal_numbers: bool,
    pub allow_unary_plus_numbers: bool,
}

/// The value of one property of the root object.
#[verifier::ext_equal]
pub enum FieldView {
    /// An array: the JSON values of its elements, and whether they are kept apart. They are by
    /// a comma between every two neighbours. The parser lets array elements follow each other
    /// without one; then they are by their quotes and brackets, if none of them is a number,
    /// `true`, `false` or `null`.
    List { values: Seq<Option<Value>>, separated: bool },
    /// Any other value, as JSON.
    Other(Option<Value>),
}

/// What a document holds under one property name.
#[verifier::ext_equal]
pub enum DocumentView {
    /// The root value is an object: the values of its properties of that name, in the
    /// order of the text. A name may occur more than once.
    Object(Seq<FieldView>),
    /// The root value is something else, or there is none.
    Other,
}

/// The tree that `CstRootNode::parse` builds from a text, or the message of its error.
pub uninterp spec fn parsed_document(
    text: Seq<char>,
    options: JsoncOptions,
) -> Result<CstRootNode, Seq<char>>;

/// What a tree holds under a property name of its root object.
pub uninterp spec fn document_view(root: CstRootNode, name: Seq<char>) -> DocumentView;

/// The text that a tree prints as.
pub uninterp spec fn document_text(root: CstRootNode) -> Seq<char>;

/// The comments of a tree, with their slashes, in the order of the text. Carriage returns at the
/// end of a line comment are not part of it: they belong to the line break, which an edit may
/// write anew.
pub uninterp spec fn document_comments(root: CstRootNode) -> Seq<Seq<char>>;

/// Those comments of a tree that are not inside its first property of that name.
pub uninterp spec fn outside_comments(root: CstRootNode, name: Seq<char>) -> Seq<Seq<char>>;

/// Those comments of a tree that its first property of that name does not touch. Where there is
/// such a property they are the outside ones, but for those directly in the root object that
/// stand
/// - between the property and the nearest line break or token before it,
/// - between the property and the comma behind it,
/// - behind that comma, up to the next line break, if that comes before the next token,
/// - behind a property without a comma, up to the next line break or token.
///
/// Where there is none they are all comments, but for those that a property put at the end would
/// share a line with: the ones behind the last property and its comma, if the root object has
/// line breaks between its properties and braces, but none behind that property and comma.
pub uninterp spec fn clear_comments(root: CstRootNode, name: Seq<char>) -> Seq<Seq<char>>;

/// The first property of that name is a list, and its last element, if it has one, is alone or
/// behind a comma.
pub uninterp spec fn ends_apart(root: CstRootNode, name: Seq<char>) -> bool;

/// A tree that `CstRootNode::parse` built, and that was changed by nothing but the edits below.
pub uninterp spec fn is_parsed(root: CstRootNode) -> bool;

/// The tree after `CstArray::append` of a string to the first property of that name.
pub uninterp spec fn with_element(
    root: CstRootNode,
    name: Seq<char>,
    value: Seq<char>,
) -> CstRootNode;

/// The tree after `CstObject::append` of a property whose value is a list of one string.
pub uninterp spec fn with_property(
    root: CstRootNode,
    name: Seq<char>,
    value: Seq<char>,
) -> CstRootNode;

/// The tree after `CstNode::remove` of an element of the first property of that name.
pub uninterp spec fn without_element(
    root: CstRootNode,
    name: Seq<char>,
    index: int,
) -> CstRootNode;

/// The tree after `CstObjectProp::remove` of the first property of that name.
pub uninterp spec fn without_property(root: CstRootNode, name: Seq<char>) -> CstRootNode;

/// The properties of a name, none where the root is no object.
pub open spec fn fields_of(document: DocumentView) -> Seq<FieldView> {
    match document {
        DocumentView::Object(fields) => fields,
        DocumentView::Other => Seq::empty(),
    }
}

/// The first property of a name is there and is a list.
pub open spec fn has_list(document: DocumentView) -> bool {
    fields_of(document).len() > 0 && fields_of(document)[0] is List
}

/// The elements of the first property of a name, none where that is no list.
pub open spec fn entries_of(document: DocumentView) -> Seq<Option<Value>> {
    if has_list(document) {
        fields_of(document)[0]->values
    } else {
        Seq::empty()
    }
}

/// The first property of a name is a list whose elements are kept apart.
pub open spec fn has_separated_list(document: DocumentView) -> bool {
    has_list(document) && fields_of(document)[0]->separated
}

/// What an element is as an entry of a plugin list. One without a JSON value is of no known
/// kind.
pub open spec fn element_entry(value: Option<Value>) -> EntryView {
    match value {
        Some(value) => value_entry(value),
        None => EntryView::Other,
    }
}

/// `after` are the elements `before` and a string behind them.
pub open spec fn adds_text(
    before: Seq<Option<Value>>,
    text: Seq<char>,
    after: Seq<Option<Value>>,
) -> bool {
    &&& after.len() == before.len() + 1
    &&& after.drop_last() == before
    &&& element_entry(after.last()) == EntryView::Text(text)
}

/// Two trees hold the same under every property name but one.
pub open spec fn same_elsewhere(left: CstRootNode, right: CstRootNode, name: Seq<char>) -> bool {
    forall|other: Seq<char>|
        other != name ==> #[trigger] document_view(left, other) == document_view(right, other)
}

/// Two trees hold the same under every property name, and have the same comments.
pub open spec fn same_document(left: CstRootNode, right: CstRootNode) -> bool {
    &&& forall|name: Seq<char>| #[trigger] document_view(left, name) == document_view(right, name)
    &&& document_comments(left) == document_comments(right)
    &&& forall|name: Seq<char>| #[trigger]
        outside_comments(left, name) == outside_comments(right, name)
    &&& forall|name: Seq<char>| #[trigger] clear_comments(left, name) == clear_comments(right, name)
    &&& forall|name: Seq<char>| #[trigger] ends_apart(left, name) == ends_apart(right, name)
}

/// Every comment of `before` outside its first property of that name is a comment of `after`.
pub open spec fn keeps_outside_comments(
    before: CstRootNode,
    after: CstRootNode,
    name: Seq<char>,
) -> bool {
    forall|comment: Seq<char>| #[trigger]
        outside_comments(before, name).contains(comment) ==> document_comments(after).contains(
            comment,
        )
}

/// Every comment of `before` that its first property of that name does not touch is a comment
/// of `after`.
pub open spec fn keeps_clear_comments(
    before: CstRootNode,
    after: CstRootNode,
    name: Seq<char>,
) -> bool {
    forall|comment: Seq<char>| #[trigger]
        clear_comments(before, name).contains(comment) ==> document_comments(after).contains(
            comment,
        )
}

/// Every comment of `before` that its first property of that name does not touch is one that
/// the first property of that name of `after` does not touch.
pub open spec fn keeps_comments_clear(
    before: CstRootNode,
    after: CstRootNode,
    name: Seq<char>,
) -> bool {
    forall|comment: Seq<char>| #[trigger]
        clear_comments(before, name).contains(comment) ==> clear_comments(after, name).contains(
            comment,
        )
}

/// Every comment of `after` is one of `before`.
pub open spec fn adds_no_comment(before: CstRootNode, after: CstRootNode) -> bool {
    forall|comment: Seq<char>| #[trigger]
        document_comments(after).contains(comment) ==> document_comments(before).contains(comment)
}

/// Every comment of `after` is one of `before` from outside its first property of that name.
pub open spec fn drops_inside_comments(
    before: CstRootNode,
    after: CstRootNode,
    name: Seq<char>,
) -> bool {
    forall|comment: Seq<char>| #[trigger]
        document_comments(after).contains(comment) ==> outside_comments(before, name).contains(
            comment,
        )
}

/// A tree of an object without properties, and without a comment anywhere.
pub open spec fn is_bare(root: CstRootNode) -> bool {
    &&& forall|name: Seq<char>| #[trigger]
        document_view(root, name) == DocumentView::Object(Seq::empty())
    &&& document_comments(root) == Seq::<Seq<char>>::empty()
}

/// The text that a tree prints as parses to a tree of the same document.
pub open spec fn reads_back(root: CstRootNode, options: JsoncOptions) -> bool {
    parsed_document(document_text(root), options) matches Ok(again) && same_document(again, root)
}

/// An edit from `before` to `after` leaves a document that reads back one that reads back,
/// under any options that ask for a comma between two properties.
pub open spec fn keeps_reading_back(before: CstRootNode, after: CstRootNode) -> bool {
    forall|options: JsoncOptions|
        !options.allow_missing_commas && #[trigger] reads_back(before, options) ==> reads_back(
            after,
            options,
        )
}

/// `CstRootNode::parse`. The tree, and the message of the error that comes in its place,
/// are a function of the text and the options. A tree prints as the text it was parsed
/// from. A text of an empty object and white space parses, to an object without properties.
/// The parser gives up on values that are nested too deep, so it returns on every text.
#[verifier::external_body]
pub(crate) fn parse_document(text: &str, options: &JsoncOptions) -> (document: Result<
    CstRootNode,
    String,
>)
    ensures
        match document {
            Ok(root) => parsed_document(text@, *options) == Ok::<CstRootNode, Seq<char>>(root)
                && document_text(root) == text@ && is_parsed(root),
            Err(message) => parsed_document(text@, *options) == Err::<CstRootNode, Seq<char>>(
                message@,
            ),
        },
        is_empty_object(text@) ==> match document {
            Ok(root) => is_bare(root),
            Err(_) => false,
        },
{
    let options = ParseOptions {
        allow_comments: options.allow_comments,
        allow_loose_object_property_names: options.allow_loose_object_property_names,
        allow_trailing_commas: options.allow_trailing_commas,
        allow_missing_commas: options.allow_missing_commas,
        allow_single_quoted_strings: options.allow_single_quoted_strings,
        allow_hexadecimal_numbers: options.allow_hexadecimal_numbers,
        allow_unary_plus_numbers: options.allow_unary_plus_numbers,
    };
    CstRootNode::parse(text, &options).map_err(|error| error.to_string())
}

/// `CstRootNode::value` and `CstNode::as_object`: whether the root value is an object.
#[verifier::external_body]
pub(crate) fn root_is_object(root: &CstRootNode) -> (found: bool)
    ensures
        forall|name: Seq<char>|
            found == (#[trigger] document_view(*root, name) is Object),
{
    root.value().and_then(|value| value.as_object()).is_some()
}

/// `CstObject::get`: whether the root object has a property of that name.
#[verifier::external_body]
pub(crate) fn has_property(root: &CstRootNode, name: &str) -> (found: bool)
    requires
        document_view(*root, name@) is Object,
    ensures
        found == (fields_of(document_view(*root, name@)).len() > 0),
{
    let object = root.value().and_then(|value| value.as_object()).unwrap();
    object.get(name).is_some()
}

/// `CstObjectProp::array_value`: whether the first property of that name is an array.
#[verifier::external_body]
pub(crate) fn property_is_list(root: &CstRootNode, name: &str) -> (found: bool)
    requires
        fields_of(document_view(*root, name@)).len() > 0,
    ensures
        found == has_list(document_view(*root, name@)),
{
    let object = root.value().and_then(|value| value.as_object()).unwrap();
    object.get(name).unwrap().array_value().is_some()
}

/// `CstArray::elements`: how many elements the first property of that name has.
#[verifier::external_body]
pub(crate) fn element_count(root: &CstRootNode, name: &str) -> (count: usize)
    requires
        has_list(document_view(*root, name@)),
    ensures
        count == entries_of(document_view(*root, name@)).len(),
{
    let object = root.value().and_then(|value| value.as_object()).unwrap();
    let list = object.get(name).and_then(|property| property.array_value()).unwrap();
    list.elements().len()
}

/// `CstNode::to_serde_value`: the JSON value of one element of the first property of that
/// name.
#[verifier::external_body]
pub(crate) fn element_value(root: &CstRootNode, name: &str, index: usize) -> (value: Option<
    Value,
>)
    requires
        has_list(document_view(*root, name@)),
        index < entries_of(document_view(*root, name@)).len(),
    ensures
        value == entries_of(document_view(*root, name@))[index as int],
{
    let object = root.value().and_then(|value| value.as_object()).unwrap();
    let list = object.get(name).and_then(|property| property.array_value()).unwrap();
    list.elements()[index].to_serde_value()
}

/// `CstNode::remove`: takes one element out of the first property of that name, with the
/// comma that it no longer needs. Other properties stay, and so do the comments outside this
/// one; no comment is new, and it is left open which of those in the list go. Where the elements
/// are kept apart, those that are left are too, and the document reads back; it also does where
/// the element is the last and behind a comma. Nothing of the kind is said of other elements:
/// their neighbours can run together when printed, as those of `"b"` in `[1 "b"2]` do.
#[verifier::external_body]
pub(crate) fn remove_element(root: &mut CstRootNode, name: &str, index: usize)
    requires
        has_list(document_view(*old(root), name@)),
        index < entries_of(document_view(*old(root), name@)).len(),
    ensures
        *final(root) == without_element(*old(root), name@, index as int),
        has_list(document_view(*final(root), name@)),
        entries_of(document_view(*final(root), name@)) == entries_of(
            document_view(*old(root), name@),
        ).remove(index as int),
        fields_of(document_view(*final(root), name@)).drop_first() == fields_of(
            document_view(*old(root), name@),
        ).drop_first(),
        same_elsewhere(*final(root), *old(root), name@),
        outside_comments(*final(root), name@) == outside_comments(*old(root), name@),
        clear_comments(*final(root), name@) == clear_comments(*old(root), name@),
        keeps_outside_comments(*old(root), *final(root), name@),
        keeps_clear_comments(*old(root), *final(root), name@),
        adds_no_comment(*old(root), *final(root)),
        is_parsed(*old(root)) ==> is_parsed(*final(root)),
        ends_apart(*old(root), name@) && index + 1 == entries_of(
            document_view(*old(root), name@),
        ).len() ==> keeps_reading_back(*old(root), *final(root)),
        has_separated_list(document_view(*old(root), name@)) ==> has_separated_list(
            document_view(*final(root), name@),
        ) && keeps_reading_back(*old(root), *final(root)),
{
    let object = root.value().and_then(|value| value.as_object()).unwrap();
    let list = object.get(name).and_then(|property| property.array_value()).unwrap();
    list.elements().swap_remove(index).remove()
}

/// `CstObjectProp::remove`: takes the first property of that name out of the root object,
/// with the comments in it and on its line. Other properties stay, no comment that it does not
/// touch goes, and none is new. What is left reads back.
#[verifier::external_body]
pub(crate) fn remove_property(root: &mut CstRootNode, name: &str)
    requires
        fields_of(document_view(*old(root), name@)).len() > 0,
    ensures
        *final(root) == without_property(*old(root), name@),
        document_view(*final(root), name@) == DocumentView::Object(
            fields_of(document_view(*old(root), name@)).drop_first(),
        ),
        same_elsewhere(*final(root), *old(root), name@),
        keeps_clear_comments(*old(root), *final(root), name@),
        adds_no_comment(*old(root), *final(root)),
        is_parsed(*old(root)) ==> is_parsed(*final(root)),
        drops_inside_comments(*old(root), *final(root), name@),
        keeps_reading_back(*old(root), *final(root)),
{
    let object = root.value().and_then(|value| value.as_object()).unwrap();
    object.get(name).unwrap().remove()
}

/// `CstArray::append` with `CstInputValue::String`: puts a string at the end of the first
/// property of that name, behind a comma. Other properties and all comments stay, and the
/// document reads back.
#[verifier::external_body]
pub(crate) fn append_element(root: &mut CstRootNode, name: &str, value: &str)
    requires
        has_list(document_view(*old(root), name@)),
    ensures
        *final(root) == with_element(*old(root), name@, value@),
        has_list(document_view(*final(root), name@)),
        adds_text(
            entries_of(document_view(*old(root), name@)),
            value@,
            entries_of(document_view(*final(root), name@)),
        ),
        has_separated_list(document_view(*final(root), name@)) == has_separated_list(
            document_view(*old(root), name@),
        ),
        fields_of(document_view(*final(root), name@)).drop_first() == fields_of(
            document_view(*old(root), name@),
        ).drop_first(),
        same_elsewhere(*final(root), *old(root), name@),
        document_comments(*final(root)) == document_comments(*old(root)),
        outside_comments(*final(root), name@) == outside_comments(*old(root), name@),
        clear_comments(*final(root), name@) == clear_comments(*old(root), name@),
        ends_apart(*final(root), name@),
        is_parsed(*old(root)) ==> is_parsed(*final(root)),
        keeps_reading_back(*old(root), *final(root)),
{
    let object = root.value().and_then(|value| value.as_object()).unwrap();
    let list = object.get(name).and_then(|property| property.array_value()).unwrap();
    list.append(CstInputValue::String(value.to_string()));
}

/// `CstObject::append` with a `CstInputValue::Array` of one `CstInputValue::String`: puts a
/// property with a list of one string at the end of the root object. Other properties and all
/// comments stay, and the document reads back. Where the property is the first of its name, it
/// is put where it touches no comment but those that share the line of the closing brace.
#[verifier::external_body]
pub(crate) fn append_property(root: &mut CstRootNode, name: &str, value: &str)
    requires
        document_view(*old(root), name@) is Object,
    ensures
        *final(root) == with_property(*old(root), name@, value@),
        fields_of(document_view(*final(root), name@)).len() > 0,
        fields_of(document_view(*final(root), name@)).drop_last() == fields_of(
            document_view(*old(root), name@),
        ),
        match fields_of(document_view(*final(root), name@)).last() {
            FieldView::List { values, separated } => separated && adds_text(
                Seq::empty(),
                value@,
                values,
            ),
            FieldView::Other(_) => false,
        },
        same_elsewhere(*final(root), *old(root), name@),
        document_comments(*final(root)) == document_comments(*old(root)),
        fields_of(document_view(*old(root), name@)).len() == 0 ==> keeps_comments_clear(
            *old(root),
            *final(root),
            name@,
        ) && ends_apart(*final(root), name@),
        is_parsed(*old(root)) ==> is_parsed(*final(root)),
        keeps_reading_back(*old(root), *final(root)),
{
    let object = root.value().and_then(|value| value.as_object()).unwrap();
    let item = CstInputValue::String(value.to_string());
    object.append(name, CstInputValue::Array(vec![item]));
}

/// The `Display` of `CstRootNode`: prints the tree. Of a parsed tree, an empty object and white
/// space are printed just where it has no property and no comment: every other part of such a
/// tree belongs to a property, is a comment, or is white space.
#[verifier::external_body]
pub(crate) fn print_document(root: &CstRootNode) -> (text: String)
    ensures
        text@ == document_text(*root),
        is_parsed(*root) ==> (is_empty_object(text@) <==> is_bare(*root)),
{
    root.to_string()
}

} // verus!
