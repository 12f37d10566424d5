//! The message envelope: an adaptive card with one text block, wrapped in one
//! attachment, wrapped in a message object.
//!
//! Everything in an envelope but the text of its block is fixed. The two
//! lists of the document have one element each, and the types say so: they
//! are arrays of length one.
use vstd::prelude::*;
use vstd::string::StringExecFns;

verus! {

/// The discriminator of the outermost object.
pub const MESSAGE_KIND: &'static str = "message";

/// The content type that announces an adaptive card.
pub const CARD_CONTENT_TYPE: &'static str = "application/vnd.microsoft.card.adaptive";

/// The schema that the card names.
pub const CARD_SCHEMA: &'static str = "http://adaptivecards.io/schemas/adaptive-card.json";

/// The discriminator of the card.
pub const CARD_KIND: &'static str = "AdaptiveCard";

/// The version that the card names. The comma is what goes on the wire.
pub const CARD_VERSION: &'static str = "1,2";

/// The discriminator of the text block.
pub const BLOCK_KIND: &'static str = "TextBlock";

/// A block of the card's body: the text that the caller sends.
#[derive(Debug)]
pub struct Body {
    pub kind: &'static str,
    pub text: String,
}

/// The adaptive card.
#[derive(Debug)]
pub struct Content {
    pub schema: &'static str,
    pub kind: &'static str,
    pub version: &'static str,
    pub body: [Body; 1],
}

/// What the message carries: the card and how to read it.
#[derive(Debug)]
pub struct Attachment {
    pub content_type: &'static str,
    pub content_url: &'static str,
    pub content: Content,
}

/// The whole payload of one request.
#[derive(Debug)]
pub struct JsonMessage {
    pub kind: &'static str,
    pub attachments: [Attachment; 1],
}

/// A block, as specifications see it.
pub struct BodyView {
    pub kind: Seq<char>,
    pub text: Seq<char>,
}

/// A card, as specifications see it.
pub struct ContentView {
    pub schema: Seq<char>,
    pub kind: Seq<char>,
    pub version: Seq<char>,
    pub body: Seq<BodyView>,
}

/// An attachment, as specifications see it.
pub struct AttachmentView {
    pub content_type: Seq<char>,
    pub content_url: Seq<char>,
    pub content: ContentView,
}

/// A message, as specifications see it.
pub struct JsonMessageView {
    pub kind: Seq<char>,
    pub attachments: Seq<AttachmentView>,
}

impl View for Body {
    type V = BodyView;

    open spec fn view(&self) -> BodyView {
        BodyView { kind: self.kind@, text: self.text@ }
    }
}

impl View for Content {
    type V = ContentView;

    open spec fn view(&self) -> ContentView {
        ContentView {
            schema: self.schema@,
            kind: self.kind@,
            version: self.version@,
            body: self.body@.map_values(|b: Body| b@),
        }
    }
}

impl View for Attachment {
    type V = AttachmentView;

    open spec fn view(&self) -> AttachmentView {
        AttachmentView {
            content_type: self.content_type@,
            content_url: self.content_url@,
            content: self.content@,
        }
    }
}

impl View for JsonMessage {
    type V = JsonMessageView;

    open spec fn view(&self) -> JsonMessageView {
        JsonMessageView {
            kind: self.kind@,
            attachments: self.attachments@.map_values(|a: Attachment| a@),
        }
    }
}

/// The envelope that carries `text`: the text in the one block of the one
/// card, and every other field at its fixed value.
pub open spec fn envelope_of(text: Seq<char>) -> JsonMessageView {
    JsonMessageView {
        kind: MESSAGE_KIND@,
        attachments: seq![
            AttachmentView {
                content_type: CARD_CONTENT_TYPE@,
                content_url: Seq::empty(),
                content: ContentView {
                    schema: CARD_SCHEMA@,
                    kind: CARD_KIND@,
                    version: CARD_VERSION@,
                    body: seq![BodyView { kind: BLOCK_KIND@, text }],
                },
            },
        ],
    }
}

impl JsonMessageView {
    /// The text of the first block of the first attachment's card.
    pub open spec fn text(self) -> Seq<char>
        recommends
            self.attachments.len() > 0,
            self.attachments[0].content.body.len() > 0,
    {
        self.attachments[0].content.body[0].text
    }

    /// Whether this is an envelope as the library builds them: one attachment,
    /// one block, and nothing but the text free.
    pub open spec fn is_envelope(self) -> bool {
        self == envelope_of(self.text())
    }
}

/// An envelope has one attachment and one block, and the block holds the text
/// that the envelope was made for, as it was given.
pub proof fn lemma_envelope_shape(text: Seq<char>)
    ensures
        envelope_of(text).is_envelope(),
        envelope_of(text).text() == text,
        envelope_of(text).attachments.len() == 1,
        envelope_of(text).attachments[0].content.body.len() == 1,
        envelope_of(text).attachments[0].content_url.len() == 0,
{
}

/// Two envelopes differ in their text and in nothing else.
pub proof fn lemma_envelopes_differ_in_text_only(first: Seq<char>, second: Seq<char>)
    ensures
        envelope_of(first).kind == envelope_of(second).kind,
        envelope_of(first).attachments[0].content_type == envelope_of(
            second,
        ).attachments[0].content_type,
        envelope_of(first).attachments[0].content_url == envelope_of(
            second,
        ).attachments[0].content_url,
        envelope_of(first).attachments[0].content.schema == envelope_of(
            second,
        ).attachments[0].content.schema,
        envelope_of(first).attachments[0].content.kind == envelope_of(
            second,
        ).attachments[0].content.kind,
        envelope_of(first).attachments[0].content.version == envelope_of(
            second,
        ).attachments[0].content.version,
        envelope_of(first).attachments[0].content.body[0].kind == envelope_of(
            second,
        ).attachments[0].content.body[0].kind,
        envelope_of(first) == envelope_of(second) <==> first == second,
{
    lemma_envelope_shape(first);
    lemma_envelope_shape(second);
}

impl JsonMessage {
    /// The text that the message carries.
    pub fn text(&self) -> (text: &str)
        ensures
            text@ == self@.text(),
    {
        self.attachments[0].content.body[0].text.as_str()
    }
}

/// The envelope with an empty text.
pub fn get_msg_template() -> (msg: JsonMessage)
    ensures
        msg@ == envelope_of(Seq::empty()),
        msg@.text().len() == 0,
{
    let msg = JsonMessage {
        kind: MESSAGE_KIND,
        attachments: [
            Attachment {
                content_type: CARD_CONTENT_TYPE,
                content_url: "",
                content: Content {
                    schema: CARD_SCHEMA,
                    kind: CARD_KIND,
                    version: CARD_VERSION,
                    body: [Body { kind: BLOCK_KIND, text: String::new() }],
                },
            },
        ],
    };
    proof {
        reveal_strlit("");
        let expected = envelope_of(Seq::empty());
        assert(""@ =~= Seq::<char>::empty());
        assert(msg.attachments[0].content@.body =~= expected.attachments[0].content.body);
        assert(msg@.attachments =~= expected.attachments);
    }
    msg
}

/// The envelope that carries `message`, whatever it holds and however long it
/// is: the text of its block is `message`, unchanged, and every other field
/// is as in the template.
pub fn get_sample_msg(message: &str) -> (msg: JsonMessage)
    ensures
        msg@ == envelope_of(message@),
        msg@.text() == message@,
{
    let mut msg = get_msg_template();
    proof {
        let blank = envelope_of(Seq::empty());
        assert(msg.attachments@.map_values(|a: Attachment| a@)[0] == blank.attachments[0]);
        assert(msg.attachments[0].content.body@.map_values(|b: Body| b@)[0]
            == blank.attachments[0].content.body[0]);
    }
    msg.attachments[0].content.body[0].text.append(message);
    proof {
        let expected = envelope_of(message@);
        assert(msg.attachments[0].content.body[0].text@ =~= message@);
        assert(msg.attachments[0].content@.body =~= expected.attachments[0].content.body);
        assert(msg@.attachments =~= expected.attachments);
    }
    msg
}

} // verus!
