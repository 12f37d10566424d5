//! The document as a frame around the text.
//!
//! All of a document but the text in it is fixed. This module proves that the
//! document of every message is the same opening text, the escaped message,
//! and the same closing text, and gives the two texts character by character.
//! It follows that the message can be told from its document.
use crate::document::{attachment_json, body_json, content_json, message_json, wire_document};
use crate::envelope::{
    envelope_of, AttachmentView, BodyView, ContentView, JsonMessageView, BLOCK_KIND,
    CARD_CONTENT_TYPE, CARD_KIND, CARD_SCHEMA, CARD_VERSION, MESSAGE_KIND,
};
use crate::json::{
    escape, is_plain, json_array, json_member, json_string, lemma_comma_separated_one,
    lemma_comma_separated_push, lemma_escape_injective, lemma_escape_plain,
    lemma_read_string_body, read_string_body,
};
use vstd::prelude::*;

verus! {

/// What every document begins with: all that stands before the text.
pub const DOCUMENT_HEAD: &'static str =
    "{\"type\":\"message\",\"attachments\":[{\"contentType\":\"application/vnd.microsoft.card.adaptive\",\"contentUrl\":\"\",\"content\":{\"$schema\":\"http://adaptivecards.io/schemas/adaptive-card.json\",\"type\":\"AdaptiveCard\",\"version\":\"1,2\",\"body\":[{\"type\":\"TextBlock\",\"text\":\"";

/// What every document ends with: the quote that ends the text, then the
/// brackets that close the block, the body, the card, the attachment, the
/// list of attachments and the message.
pub const DOCUMENT_TAIL: &'static str = "\"}]}}]}";

/// The text of a block up to where its text begins.
pub open spec fn body_head(kind: Seq<char>) -> Seq<char> {
    seq!['{'] + json_member("type"@, json_string(kind)) + seq![','] + json_string("text"@) + seq![
        ':',
        '"',
    ]
}

/// The text of a card up to where its one block begins.
pub open spec fn content_head(c: ContentView) -> Seq<char> {
    seq!['{'] + json_member("$schema"@, json_string(c.schema)) + seq![','] + json_member(
        "type"@,
        json_string(c.kind),
    ) + seq![','] + json_member("version"@, json_string(c.version)) + seq![','] + json_string(
        "body"@,
    ) + seq![':', '[']
}

/// The text of an attachment up to where its card begins.
pub open spec fn attachment_head(a: AttachmentView) -> Seq<char> {
    seq!['{'] + json_member("contentType"@, json_string(a.content_type)) + seq![','] + json_member(
        "contentUrl"@,
        json_string(a.content_url),
    ) + seq![','] + json_string("content"@) + seq![':']
}

/// The text of a message up to where its one attachment begins.
pub open spec fn message_head(kind: Seq<char>) -> Seq<char> {
    seq!['{'] + json_member("type"@, json_string(kind)) + seq![','] + json_string("attachments"@)
        + seq![':', '[']
}

/// A block's text is its head, the escaped text, and the closing quote and
/// brace.
pub proof fn lemma_body_frame(b: BodyView)
    ensures
        body_json(b) == body_head(b.kind) + escape(b.text) + seq!['"', '}'],
{
    let kind = json_member("type"@, json_string(b.kind));
    let text = json_member("text"@, json_string(b.text));
    lemma_comma_separated_one(kind);
    lemma_comma_separated_push(seq![kind], text);
    assert(seq![kind].push(text) =~= seq![kind, text]);
    assert(body_json(b) =~= body_head(b.kind) + escape(b.text) + seq!['"', '}']);
}

/// A card with one block is its head, the block, and the closing bracket and
/// brace.
pub proof fn lemma_content_frame(c: ContentView)
    requires
        c.body.len() == 1,
    ensures
        content_json(c) == content_head(c) + body_json(c.body[0]) + seq![']', '}'],
{
    let blocks = c.body.map_values(|b: BodyView| body_json(b));
    assert(blocks =~= seq![body_json(c.body[0])]);
    lemma_comma_separated_one(body_json(c.body[0]));
    let schema = json_member("$schema"@, json_string(c.schema));
    let kind = json_member("type"@, json_string(c.kind));
    let version = json_member("version"@, json_string(c.version));
    let body = json_member("body"@, json_array(blocks));
    lemma_comma_separated_one(schema);
    lemma_comma_separated_push(seq![schema], kind);
    lemma_comma_separated_push(seq![schema, kind], version);
    lemma_comma_separated_push(seq![schema, kind, version], body);
    assert(seq![schema].push(kind) =~= seq![schema, kind]);
    assert(seq![schema, kind].push(version) =~= seq![schema, kind, version]);
    assert(seq![schema, kind, version].push(body) =~= seq![schema, kind, version, body]);
    assert(content_json(c) =~= content_head(c) + body_json(c.body[0]) + seq![']', '}']);
}

/// An attachment is its head, its card, and the closing brace.
pub proof fn lemma_attachment_frame(a: AttachmentView)
    ensures
        attachment_json(a) == attachment_head(a) + content_json(a.content) + seq!['}'],
{
    let content_type = json_member("contentType"@, json_string(a.content_type));
    let content_url = json_member("contentUrl"@, json_string(a.content_url));
    let content = json_member("content"@, content_json(a.content));
    lemma_comma_separated_one(content_type);
    lemma_comma_separated_push(seq![content_type], content_url);
    lemma_comma_separated_push(seq![content_type, content_url], content);
    assert(seq![content_type].push(content_url) =~= seq![content_type, content_url]);
    assert(seq![content_type, content_url].push(content) =~= seq![
        content_type,
        content_url,
        content,
    ]);
    assert(attachment_json(a) =~= attachment_head(a) + content_json(a.content) + seq!['}']);
}

/// A message with one attachment is its head, the attachment, and the closing
/// bracket and brace.
pub proof fn lemma_message_frame(m: JsonMessageView)
    requires
        m.attachments.len() == 1,
    ensures
        message_json(m) == message_head(m.kind) + attachment_json(m.attachments[0]) + seq![
            ']',
            '}',
        ],
{
    let items = m.attachments.map_values(|a: AttachmentView| attachment_json(a));
    assert(items =~= seq![attachment_json(m.attachments[0])]);
    lemma_comma_separated_one(attachment_json(m.attachments[0]));
    let kind = json_member("type"@, json_string(m.kind));
    let attachments = json_member("attachments"@, json_array(items));
    lemma_comma_separated_one(kind);
    lemma_comma_separated_push(seq![kind], attachments);
    assert(seq![kind].push(attachments) =~= seq![kind, attachments]);
    assert(message_json(m) =~= message_head(m.kind) + attachment_json(m.attachments[0]) + seq![
        ']',
        '}',
    ]);
}

/// Four frames, one inside the other, are one frame: the heads in order, then
/// what is framed, then the tails from the innermost out.
proof fn lemma_nested_frames(
    heads: (Seq<char>, Seq<char>, Seq<char>, Seq<char>),
    inner: Seq<char>,
    tails: (Seq<char>, Seq<char>, Seq<char>, Seq<char>),
)
    ensures
        heads.0 + (heads.1 + (heads.2 + (heads.3 + inner + tails.3) + tails.2) + tails.1) + tails.0
            == ((heads.0 + heads.1) + (heads.2 + heads.3)) + inner + (tails.3 + tails.2 + tails.1
            + tails.0),
{
    assert(heads.0 + (heads.1 + (heads.2 + (heads.3 + inner + tails.3) + tails.2) + tails.1)
        + tails.0 =~= ((heads.0 + heads.1) + (heads.2 + heads.3)) + inner + (tails.3 + tails.2
        + tails.1 + tails.0));
}

/// The head of a message, character by character.
const MESSAGE_HEAD: &'static str = "{\"type\":\"message\",\"attachments\":[";

/// The head of the attachment of an envelope, character by character.
const ATTACHMENT_HEAD: &'static str =
    "{\"contentType\":\"application/vnd.microsoft.card.adaptive\",\"contentUrl\":\"\",\"content\":";

/// The head of the card of an envelope, character by character.
const CONTENT_HEAD: &'static str =
    "{\"$schema\":\"http://adaptivecards.io/schemas/adaptive-card.json\",\"type\":\"AdaptiveCard\",\"version\":\"1,2\",\"body\":[";

/// The head of the block of an envelope, character by character.
const BODY_HEAD: &'static str = "{\"type\":\"TextBlock\",\"text\":\"";

/// The heads of the message and of its attachment, one after the other.
const OUTER_HEADS: &'static str =
    "{\"type\":\"message\",\"attachments\":[{\"contentType\":\"application/vnd.microsoft.card.adaptive\",\"contentUrl\":\"\",\"content\":";

/// The heads of the card and of its block, one after the other.
const INNER_HEADS: &'static str =
    "{\"$schema\":\"http://adaptivecards.io/schemas/adaptive-card.json\",\"type\":\"AdaptiveCard\",\"version\":\"1,2\",\"body\":[{\"type\":\"TextBlock\",\"text\":\"";

proof fn lemma_message_head_text()
    ensures
        message_head(MESSAGE_KIND@) == MESSAGE_HEAD@,
{
    reveal_strlit("type");
    reveal_strlit("message");
    reveal_strlit("attachments");
    reveal_strlit("{\"type\":\"message\",\"attachments\":[");
    lemma_escape_plain("type"@);
    lemma_escape_plain("message"@);
    lemma_escape_plain("attachments"@);
    assert(message_head(MESSAGE_KIND@) =~= MESSAGE_HEAD@);
}

proof fn lemma_attachment_head_text(a: AttachmentView)
    requires
        a.content_type == CARD_CONTENT_TYPE@,
        a.content_url == Seq::<char>::empty(),
    ensures
        attachment_head(a) == ATTACHMENT_HEAD@,
{
    reveal_strlit("contentType");
    reveal_strlit("application/vnd.microsoft.card.adaptive");
    reveal_strlit("contentUrl");
    reveal_strlit("content");
    reveal_strlit(
        "{\"contentType\":\"application/vnd.microsoft.card.adaptive\",\"contentUrl\":\"\",\"content\":",
    );
    lemma_escape_plain("contentType"@);
    lemma_escape_plain("application/vnd.microsoft.card.adaptive"@);
    lemma_escape_plain("contentUrl"@);
    lemma_escape_plain("content"@);
    assert(attachment_head(a) =~= ATTACHMENT_HEAD@);
}

proof fn lemma_content_head_text(c: ContentView)
    requires
        c.schema == CARD_SCHEMA@,
        c.kind == CARD_KIND@,
        c.version == CARD_VERSION@,
    ensures
        content_head(c) == CONTENT_HEAD@,
{
    reveal_strlit("$schema");
    reveal_strlit("http://adaptivecards.io/schemas/adaptive-card.json");
    reveal_strlit("type");
    reveal_strlit("AdaptiveCard");
    reveal_strlit("version");
    reveal_strlit("1,2");
    reveal_strlit("body");
    reveal_strlit(
        "{\"$schema\":\"http://adaptivecards.io/schemas/adaptive-card.json\",\"type\":\"AdaptiveCard\",\"version\":\"1,2\",\"body\":[",
    );
    lemma_escape_plain("$schema"@);
    lemma_escape_plain("http://adaptivecards.io/schemas/adaptive-card.json"@);
    lemma_escape_plain("type"@);
    lemma_escape_plain("AdaptiveCard"@);
    lemma_escape_plain("version"@);
    lemma_escape_plain("1,2"@);
    lemma_escape_plain("body"@);
    assert(content_head(c) =~= CONTENT_HEAD@);
}

proof fn lemma_body_head_text()
    ensures
        body_head(BLOCK_KIND@) == BODY_HEAD@,
{
    reveal_strlit("type");
    reveal_strlit("TextBlock");
    reveal_strlit("text");
    reveal_strlit("{\"type\":\"TextBlock\",\"text\":\"");
    lemma_escape_plain("type"@);
    lemma_escape_plain("TextBlock"@);
    lemma_escape_plain("text"@);
    assert(body_head(BLOCK_KIND@) =~= BODY_HEAD@);
}

proof fn lemma_outer_heads_text()
    ensures
        MESSAGE_HEAD@ + ATTACHMENT_HEAD@ == OUTER_HEADS@,
{
    reveal_strlit("{\"type\":\"message\",\"attachments\":[");
    reveal_strlit(
        "{\"contentType\":\"application/vnd.microsoft.card.adaptive\",\"contentUrl\":\"\",\"content\":",
    );
    reveal_strlit(
        "{\"type\":\"message\",\"attachments\":[{\"contentType\":\"application/vnd.microsoft.card.adaptive\",\"contentUrl\":\"\",\"content\":",
    );
    assert(MESSAGE_HEAD@ + ATTACHMENT_HEAD@ =~= OUTER_HEADS@);
}

proof fn lemma_inner_heads_text()
    ensures
        CONTENT_HEAD@ + BODY_HEAD@ == INNER_HEADS@,
{
    reveal_strlit(
        "{\"$schema\":\"http://adaptivecards.io/schemas/adaptive-card.json\",\"type\":\"AdaptiveCard\",\"version\":\"1,2\",\"body\":[",
    );
    reveal_strlit("{\"type\":\"TextBlock\",\"text\":\"");
    reveal_strlit(
        "{\"$schema\":\"http://adaptivecards.io/schemas/adaptive-card.json\",\"type\":\"AdaptiveCard\",\"version\":\"1,2\",\"body\":[{\"type\":\"TextBlock\",\"text\":\"",
    );
    assert(CONTENT_HEAD@ + BODY_HEAD@ =~= INNER_HEADS@);
}

proof fn lemma_all_heads_text()
    ensures
        OUTER_HEADS@ + INNER_HEADS@ == DOCUMENT_HEAD@,
{
    reveal_strlit(
        "{\"type\":\"message\",\"attachments\":[{\"contentType\":\"application/vnd.microsoft.card.adaptive\",\"contentUrl\":\"\",\"content\":",
    );
    reveal_strlit(
        "{\"$schema\":\"http://adaptivecards.io/schemas/adaptive-card.json\",\"type\":\"AdaptiveCard\",\"version\":\"1,2\",\"body\":[{\"type\":\"TextBlock\",\"text\":\"",
    );
    reveal_strlit(
        "{\"type\":\"message\",\"attachments\":[{\"contentType\":\"application/vnd.microsoft.card.adaptive\",\"contentUrl\":\"\",\"content\":{\"$schema\":\"http://adaptivecards.io/schemas/adaptive-card.json\",\"type\":\"AdaptiveCard\",\"version\":\"1,2\",\"body\":[{\"type\":\"TextBlock\",\"text\":\"",
    );
    assert(OUTER_HEADS@ + INNER_HEADS@ =~= DOCUMENT_HEAD@);
}

/// The closing characters of the four objects and two arrays, behind the quote
/// that ends the text.
proof fn lemma_document_tail_text()
    ensures
        seq!['"', '}'] + seq![']', '}'] + seq!['}'] + seq![']', '}'] == DOCUMENT_TAIL@,
{
    reveal_strlit("\"}]}}]}");
    assert(seq!['"', '}'] + seq![']', '}'] + seq!['}'] + seq![']', '}'] =~= DOCUMENT_TAIL@);
}

/// Every document is one fixed frame around the escaped text: it begins with
/// `DOCUMENT_HEAD`, ends with `DOCUMENT_TAIL`, and holds the escaped message
/// between the two. Nothing but the text differs between two documents.
pub proof fn lemma_document_frame(text: Seq<char>)
    ensures
        wire_document(text) == DOCUMENT_HEAD@ + escape(text) + DOCUMENT_TAIL@,
{
    let m = envelope_of(text);
    let a = m.attachments[0];
    let c = a.content;
    let b = c.body[0];
    lemma_message_frame(m);
    lemma_attachment_frame(a);
    lemma_content_frame(c);
    lemma_body_frame(b);
    lemma_nested_frames(
        (message_head(m.kind), attachment_head(a), content_head(c), body_head(b.kind)),
        escape(text),
        (seq![']', '}'], seq!['}'], seq![']', '}'], seq!['"', '}']),
    );
    lemma_message_head_text();
    lemma_attachment_head_text(a);
    lemma_content_head_text(c);
    lemma_body_head_text();
    lemma_outer_heads_text();
    lemma_inner_heads_text();
    lemma_all_heads_text();
    lemma_document_tail_text();
}

/// A message without a quote, a backslash or a control character stands in
/// its document as it is.
pub proof fn lemma_plain_text_document(text: Seq<char>)
    requires
        is_plain(text),
    ensures
        wire_document(text) == DOCUMENT_HEAD@ + text + DOCUMENT_TAIL@,
{
    lemma_document_frame(text);
    lemma_escape_plain(text);
}

/// The message stays inside its string. Whatever the message holds, quotes,
/// brackets and commas included, a reader that starts behind the head of the
/// document reads the message back as it was given, and arrives at the tail
/// of the document: the message adds no member and no element to it.
pub proof fn lemma_text_stays_in_its_string(text: Seq<char>)
    ensures
        wire_document(text).take(DOCUMENT_HEAD@.len() as int) == DOCUMENT_HEAD@,
        read_string_body(wire_document(text).skip(DOCUMENT_HEAD@.len() as int)) == Some(
            (text, escape(text).len() as int),
        ),
        wire_document(text).skip((DOCUMENT_HEAD@.len() + escape(text).len()) as int)
            == DOCUMENT_TAIL@,
{
    lemma_document_frame(text);
    let head = DOCUMENT_HEAD@;
    let tail = DOCUMENT_TAIL@;
    let document = head + escape(text) + tail;
    assert(tail.len() == 7 && tail[0] == '"') by {
        reveal_strlit("\"}]}}]}");
    }
    assert(document.take(head.len() as int) =~= head);
    assert(document.skip((head.len() + escape(text).len()) as int) =~= tail);
    assert(document.skip(head.len() as int) =~= escape(text) + seq!['"'] + tail.skip(1));
    lemma_read_string_body(text, tail.skip(1));
}

/// The message can be told from the document: two messages with the same
/// document are the same message.
pub proof fn lemma_document_determines_text(first: Seq<char>, second: Seq<char>)
    requires
        wire_document(first) == wire_document(second),
    ensures
        first == second,
{
    lemma_document_frame(first);
    lemma_document_frame(second);
    let head = DOCUMENT_HEAD@;
    let tail = DOCUMENT_TAIL@;
    let one = head + escape(first) + tail;
    let two = head + escape(second) + tail;
    let from = head.len() as int;
    let to = one.len() - tail.len();
    assert(escape(first) =~= one.subrange(from, to));
    assert(escape(second) =~= two.subrange(from, to));
    lemma_escape_injective(first, second);
}

} // verus!
