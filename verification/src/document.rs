//! The JSON document of an envelope: what goes on the wire.
//!
//! The spec functions of this module give the text of each part of a message
//! in terms of the JSON text of its members, in the order of the wire format.
//! The writers append that text to a `String`.
use crate::envelope::{
    envelope_of, Attachment, AttachmentView, Body, BodyView, Content, ContentView, JsonMessage,
    JsonMessageView, BLOCK_KIND, CARD_CONTENT_TYPE, CARD_KIND, CARD_SCHEMA, CARD_VERSION,
    MESSAGE_KIND,
};
use crate::json::{
    json_array, json_member, json_object, json_string, lemma_comma_separated_one,
    lemma_comma_separated_push, write_key, write_string_member,
};
use vstd::prelude::*;

verus! {

/// The JSON text of a block.
pub open spec fn body_json(b: BodyView) -> Seq<char> {
    json_object(
        seq![json_member("type"@, json_string(b.kind)), json_member("text"@, json_string(b.text))],
    )
}

/// The JSON text of a card.
pub open spec fn content_json(c: ContentView) -> Seq<char> {
    json_object(
        seq![
            json_member("$schema"@, json_string(c.schema)),
            json_member("type"@, json_string(c.kind)),
            json_member("version"@, json_string(c.version)),
            json_member("body"@, json_array(c.body.map_values(|b: BodyView| body_json(b)))),
        ],
    )
}

/// The JSON text of an attachment.
pub open spec fn attachment_json(a: AttachmentView) -> Seq<char> {
    json_object(
        seq![
            json_member("contentType"@, json_string(a.content_type)),
            json_member("contentUrl"@, json_string(a.content_url)),
            json_member("content"@, content_json(a.content)),
        ],
    )
}

/// The JSON text of a message.
pub open spec fn message_json(m: JsonMessageView) -> Seq<char> {
    json_object(
        seq![
            json_member("type"@, json_string(m.kind)),
            json_member(
                "attachments"@,
                json_array(m.attachments.map_values(|a: AttachmentView| attachment_json(a))),
            ),
        ],
    )
}

/// The document that carries `text`: the JSON text of its envelope.
pub open spec fn wire_document(text: Seq<char>) -> Seq<char> {
    message_json(envelope_of(text))
}

/// In the document of an envelope the list of attachments holds exactly one
/// attachment, and the body of its card exactly one block: each of the two
/// arrays is written from a sequence of length one.
pub proof fn lemma_one_attachment_one_block(text: Seq<char>)
    ensures
        wire_document(text) == json_object(
            seq![
                json_member("type"@, json_string(MESSAGE_KIND@)),
                json_member(
                    "attachments"@,
                    json_array(seq![attachment_json(envelope_of(text).attachments[0])]),
                ),
            ],
        ),
        attachment_json(envelope_of(text).attachments[0]) == json_object(
            seq![
                json_member("contentType"@, json_string(CARD_CONTENT_TYPE@)),
                json_member("contentUrl"@, json_string(Seq::empty())),
                json_member("content"@, content_json(envelope_of(text).attachments[0].content)),
            ],
        ),
        content_json(envelope_of(text).attachments[0].content) == json_object(
            seq![
                json_member("$schema"@, json_string(CARD_SCHEMA@)),
                json_member("type"@, json_string(CARD_KIND@)),
                json_member("version"@, json_string(CARD_VERSION@)),
                json_member(
                    "body"@,
                    json_array(seq![body_json(BodyView { kind: BLOCK_KIND@, text })]),
                ),
            ],
        ),
        body_json(BodyView { kind: BLOCK_KIND@, text }) == json_object(
            seq![
                json_member("type"@, json_string(BLOCK_KIND@)),
                json_member("text"@, json_string(text)),
            ],
        ),
{
    let m = envelope_of(text);
    let c = m.attachments[0].content;
    assert(m.attachments.map_values(|a: AttachmentView| attachment_json(a)) =~= seq![
        attachment_json(m.attachments[0]),
    ]);
    assert(c.body.map_values(|b: BodyView| body_json(b)) =~= seq![
        body_json(BodyView { kind: BLOCK_KIND@, text }),
    ]);
}

impl Body {
    /// Appends the JSON text of this block to `out`.
    pub fn write_json(&self, out: &mut String)
        ensures
            final(out)@ == old(out)@ + body_json(self@),
    {
        out.push('{');
        write_string_member(out, "type", self.kind);
        out.push(',');
        write_string_member(out, "text", self.text.as_str());
        out.push('}');
        proof {
            let kind = json_member("type"@, json_string(self.kind@));
            let text = json_member("text"@, json_string(self.text@));
            lemma_comma_separated_one(kind);
            lemma_comma_separated_push(seq![kind], text);
            assert(seq![kind].push(text) =~= seq![kind, text]);
            assert(out@ =~= old(out)@ + body_json(self@));
        }
    }
}

impl Content {
    /// Appends the JSON text of this card to `out`.
    pub fn write_json(&self, out: &mut String)
        ensures
            final(out)@ == old(out)@ + content_json(self@),
    {
        out.push('{');
        write_string_member(out, "$schema", self.schema);
        out.push(',');
        write_string_member(out, "type", self.kind);
        out.push(',');
        write_string_member(out, "version", self.version);
        out.push(',');
        write_key(out, "body");
        out.push('[');
        self.body[0].write_json(out);
        out.push(']');
        out.push('}');
        proof {
            let blocks = self@.body.map_values(|b: BodyView| body_json(b));
            assert(blocks =~= seq![body_json(self.body[0]@)]);
            lemma_comma_separated_one(body_json(self.body[0]@));
            let schema = json_member("$schema"@, json_string(self.schema@));
            let kind = json_member("type"@, json_string(self.kind@));
            let version = json_member("version"@, json_string(self.version@));
            let body = json_member("body"@, json_array(blocks));
            lemma_comma_separated_one(schema);
            lemma_comma_separated_push(seq![schema], kind);
            lemma_comma_separated_push(seq![schema, kind], version);
            lemma_comma_separated_push(seq![schema, kind, version], body);
            assert(seq![schema].push(kind) =~= seq![schema, kind]);
            assert(seq![schema, kind].push(version) =~= seq![schema, kind, version]);
            assert(seq![schema, kind, version].push(body) =~= seq![schema, kind, version, body]);
            assert(out@ =~= old(out)@ + content_json(self@));
        }
    }
}

impl Attachment {
    /// Appends the JSON text of this attachment to `out`.
    pub fn write_json(&self, out: &mut String)
        ensures
            final(out)@ == old(out)@ + attachment_json(self@),
    {
        out.push('{');
        write_string_member(out, "contentType", self.content_type);
        out.push(',');
        write_string_member(out, "contentUrl", self.content_url);
        out.push(',');
        write_key(out, "content");
        self.content.write_json(out);
        out.push('}');
        proof {
            let content_type = json_member("contentType"@, json_string(self.content_type@));
            let content_url = json_member("contentUrl"@, json_string(self.content_url@));
            let content = json_member("content"@, content_json(self.content@));
            lemma_comma_separated_one(content_type);
            lemma_comma_separated_push(seq![content_type], content_url);
            lemma_comma_separated_push(seq![content_type, content_url], content);
            assert(seq![content_type].push(content_url) =~= seq![content_type, content_url]);
            assert(seq![content_type, content_url].push(content) =~= seq![
                content_type,
                content_url,
                content,
            ]);
            assert(out@ =~= old(out)@ + attachment_json(self@));
        }
    }
}

impl JsonMessage {
    /// Appends the JSON text of this message to `out`.
    pub fn write_json(&self, out: &mut String)
        ensures
            final(out)@ == old(out)@ + message_json(self@),
    {
        out.push('{');
        write_string_member(out, "type", self.kind);
        out.push(',');
        write_key(out, "attachments");
        out.push('[');
        self.attachments[0].write_json(out);
        out.push(']');
        out.push('}');
        proof {
            let items = self@.attachments.map_values(|a: AttachmentView| attachment_json(a));
            assert(items =~= seq![attachment_json(self.attachments[0]@)]);
            lemma_comma_separated_one(attachment_json(self.attachments[0]@));
            let kind = json_member("type"@, json_string(self.kind@));
            let attachments = json_member("attachments"@, json_array(items));
            lemma_comma_separated_one(kind);
            lemma_comma_separated_push(seq![kind], attachments);
            assert(seq![kind].push(attachments) =~= seq![kind, attachments]);
            assert(out@ =~= old(out)@ + message_json(self@));
        }
    }

    /// The document that goes on the wire for this message.
    pub fn to_json(&self) -> (document: String)
        ensures
            document@ == message_json(self@),
    {
        let mut document = String::new();
        self.write_json(&mut document);
        assert(document@ =~= message_json(self@));
        document
    }
}

} // verus!
