//! The sender: a target URL, and the one request that delivers a message.
//!
//! The library does no I/O of its own. A send builds the request and hands it
//! to a transport that the caller brings; what the transport gives back is
//! what the send returns.
use crate::document::wire_document;
use crate::envelope::get_sample_msg;
use crate::frame::{
    lemma_document_determines_text, lemma_document_frame, DOCUMENT_HEAD, DOCUMENT_TAIL,
};
use crate::json::escape;
use vstd::prelude::*;
use vstd::utf8::encode_utf8;

verus! {

/// The content type of every request.
pub const JSON_CONTENT_TYPE: &'static str = "application/json";

/// One HTTP POST: where it goes, what its `Content-Type` header says, and its
/// body.
pub struct PostRequest {
    pub url: String,
    pub content_type: &'static str,
    pub body: String,
}

/// A request, as specifications see it.
pub struct PostRequestView {
    pub url: Seq<char>,
    pub content_type: Seq<char>,
    pub body: Seq<char>,
}

impl View for PostRequest {
    type V = PostRequestView;

    open spec fn view(&self) -> PostRequestView {
        PostRequestView { url: self.url@, content_type: self.content_type@, body: self.body@ }
    }
}

/// The request that delivers `message` to `url`: the URL as it was given, a
/// JSON content type, and the document of the envelope around the message.
pub open spec fn request_of(url: Seq<char>, message: Seq<char>) -> PostRequestView {
    PostRequestView { url, content_type: JSON_CONTENT_TYPE@, body: wire_document(message) }
}

/// Sends text messages to one webhook.
pub struct WebhookSender {
    url: String,
}

impl View for WebhookSender {
    type V = Seq<char>;

    /// The target URL.
    closed spec fn view(&self) -> Seq<char> {
        self.url@
    }
}

impl WebhookSender {
    /// A sender for `webhook_url`. The URL is kept as it is: nothing is
    /// checked and nothing is changed.
    pub fn new(webhook_url: String) -> (sender: Self)
        ensures
            sender@ == webhook_url@,
    {
        WebhookSender { url: webhook_url }
    }

    /// The target URL.
    pub fn url(&self) -> (url: &str)
        ensures
            url@ == self@,
    {
        self.url.as_str()
    }

    /// The request that delivers `message`: a POST to the target URL, with a
    /// JSON content type, whose body is the document of the envelope around
    /// `message`.
    pub fn request(&self, message: &str) -> (request: PostRequest)
        ensures
            request@ == request_of(self@, message@),
            request.url@ == self@,
            request.content_type@ == JSON_CONTENT_TYPE@,
            request.body@ == DOCUMENT_HEAD@ + escape(message@) + DOCUMENT_TAIL@,
    {
        let msg = get_sample_msg(message);
        proof {
            lemma_document_frame(message@);
        }
        PostRequest { url: self.url.clone(), content_type: JSON_CONTENT_TYPE, body: msg.to_json() }
    }

    /// Sends `message` through `transport`.
    ///
    /// The transport is handed the request for `message` and is called once;
    /// whatever it returns is returned, as it is: a response of any status as
    /// much as a failure. There is no second attempt.
    pub fn post<T, F: FnOnce(PostRequest) -> T>(&self, message: &str, transport: F) -> (outcome: T)
        requires
            forall|request: PostRequest|
                request@ == request_of(self@, message@) ==> call_requires(transport, (request,)),
        ensures
            exists|request: PostRequest|
                request@ == request_of(self@, message@) && call_ensures(
                    transport,
                    (request,),
                    outcome,
                ),
    {
        let request = self.request(message);
        transport(request)
    }
}

/// Sending one message twice asks for the same request twice: two requests
/// for one message to one URL agree in every field, and their bodies are the
/// same bytes.
pub proof fn lemma_same_message_same_request(
    url: Seq<char>,
    message: Seq<char>,
    first: PostRequest,
    second: PostRequest,
)
    requires
        first@ == request_of(url, message),
        second@ == request_of(url, message),
    ensures
        first@ == second@,
        encode_utf8(first.body@) == encode_utf8(second.body@),
{
}

/// Requests for different messages differ: the message can be told from the
/// body of its request.
pub proof fn lemma_request_determines_message(url: Seq<char>, first: Seq<char>, second: Seq<char>)
    requires
        request_of(url, first).body == request_of(url, second).body,
    ensures
        first == second,
{
    lemma_document_determines_text(first, second);
}

} // verus!
