use vstd::prelude::*;
use vstd::string::StringExecFns;
use crate::encoding::{block_number_hex, block_number_text};
use crate::error::{ErrorKind, Failure};
use crate::json::{
    items_view, json_of_bytes, json_of_text, lemma_array_view, lemma_object_view, members_view,
    parse_bytes, parse_text, Json, JsonValue, Member, MemberValue,
};

verus! {

/// A client of one node: it knows the node's address, words each request
/// and reads each reply. Sending is the caller's part.
#[derive(Debug)]
pub struct RpcClient {
    pub url: String,
}

/// A request that is ready to be posted: where to, and the body.
#[derive(Debug)]
pub struct RpcRequest {
    pub url: String,
    pub body: Json,
}

/// What came of posting a request.
#[derive(Debug)]
pub enum TransportReply {
    /// The request could not be sent or its reply not received; the words
    /// say why.
    Failed(String),
    /// The body of the reply.
    Body(Vec<u8>),
}

/// Which reply a block resolution waits for.
#[derive(Clone, Copy, Debug, PartialEq, Eq, Structural)]
pub enum Stage {
    AwaitingHash,
    AwaitingBlock,
}

/// What a block resolution does next.
#[derive(Debug)]
pub enum Step {
    /// Post `request`, then resume at `stage` with the reply.
    Send { request: RpcRequest, stage: Stage },
    /// The block.
    Done(Json),
    /// The resolution has failed.
    Failed(Failure),
}

/// A step as mathematical values.
pub enum StepValue {
    Send { url: Seq<char>, body: JsonValue, stage: Stage },
    Done(JsonValue),
    Failed(ErrorKind),
}

impl View for Step {
    type V = StepValue;

    open spec fn view(&self) -> StepValue {
        match self {
            Step::Send { request, stage } => StepValue::Send {
                url: request.url@,
                body: request.body@,
                stage: *stage,
            },
            Step::Done(block) => StepValue::Done(block@),
            Step::Failed(failure) => StepValue::Failed(failure.kind),
        }
    }
}

/// The body of a request: version `2.0`, the method, its parameters, and
/// the identifier 1.
pub open spec fn envelope(method: Seq<char>, params: JsonValue) -> JsonValue {
    JsonValue::Object(
        seq![
            MemberValue { name: "jsonrpc"@, value: JsonValue::Text("2.0"@) },
            MemberValue { name: "method"@, value: JsonValue::Text(method) },
            MemberValue { name: "params"@, value: params },
            MemberValue { name: "id"@, value: JsonValue::Number("1"@) },
        ],
    )
}

/// The parameter list that holds the one string `text`.
pub open spec fn one_text(text: Seq<char>) -> JsonValue {
    JsonValue::Array(seq![JsonValue::Text(text)])
}

/// The body of the request for the hash of block `n`.
pub open spec fn hash_request(n: nat) -> JsonValue {
    envelope("chain_getBlockHash"@, one_text(block_number_text(n)))
}

/// The body of the request for the block with hash `hash`.
pub open spec fn block_request(hash: Seq<char>) -> JsonValue {
    envelope("midnight_jsonBlock"@, one_text(hash))
}

/// What a reply holds: the document in its body, or the reason for which
/// there is none.
pub open spec fn reply_outcome(reply: TransportReply) -> Result<JsonValue, ErrorKind> {
    match reply {
        TransportReply::Failed(_) => Err(ErrorKind::TransportError),
        TransportReply::Body(body) => match json_of_bytes(body@) {
            Some(document) => Ok(document),
            None => Err(ErrorKind::ResponseParseError),
        },
    }
}

/// The block hash in the reply to the hash query: its `result`, which must
/// be a string.
pub open spec fn hash_result(response: JsonValue) -> Result<Seq<char>, ErrorKind> {
    match response.field("result"@) {
        Some(JsonValue::Text(hash)) => Ok(hash),
        _ => Err(ErrorKind::MissingHashResult),
    }
}

/// The block's text in the reply to the block query: its `result`, which
/// must be there and, to hold a document, be a string.
pub open spec fn block_text(response: JsonValue) -> Result<Seq<char>, ErrorKind> {
    match response.field("result"@) {
        None => Err(ErrorKind::MissingBlockResult),
        Some(JsonValue::Text(text)) => Ok(text),
        Some(_) => Err(ErrorKind::BlockJsonParseError),
    }
}

/// The block, given what the parser makes of the block's text: a text that
/// is no JSON is an error, and `null` says that there is no such block.
pub open spec fn block_outcome(inner: Option<JsonValue>) -> Result<JsonValue, ErrorKind> {
    match inner {
        None => Err(ErrorKind::BlockJsonParseError),
        Some(JsonValue::Null) => Err(ErrorKind::BlockNotFound),
        Some(block) => Ok(block),
    }
}

/// The step that follows the document `response`, received at `stage`.
pub open spec fn step_after(url: Seq<char>, stage: Stage, response: JsonValue) -> StepValue {
    match stage {
        Stage::AwaitingHash => match hash_result(response) {
            Ok(hash) => StepValue::Send {
                url,
                body: block_request(hash),
                stage: Stage::AwaitingBlock,
            },
            Err(kind) => StepValue::Failed(kind),
        },
        Stage::AwaitingBlock => match block_text(response) {
            Ok(text) => match block_outcome(json_of_text(text)) {
                Ok(block) => StepValue::Done(block),
                Err(kind) => StepValue::Failed(kind),
            },
            Err(kind) => StepValue::Failed(kind),
        },
    }
}

/// The step that follows `reply`, received at `stage`.
pub open spec fn next_step(url: Seq<char>, stage: Stage, reply: TransportReply) -> StepValue {
    match reply_outcome(reply) {
        Ok(response) => step_after(url, stage, response),
        Err(kind) => StepValue::Failed(kind),
    }
}

/// A document or a failure as mathematical values.
pub open spec fn document_view(r: Result<Json, Failure>) -> Result<JsonValue, ErrorKind> {
    match r {
        Ok(document) => Ok(document@),
        Err(failure) => Err(failure.kind),
    }
}

/// Accepts a parsed reply, or reports the parser's error as
/// `ResponseParseError` with the parser's words.
pub fn response_from(parsed: Result<Json, serde_json::Error>) -> (r: Result<Json, Failure>)
    ensures
        match parsed {
            Ok(document) => r == Ok::<_, Failure>(document),
            Err(e) => r is Err && r->Err_0.kind == ErrorKind::ResponseParseError
                && vstd::string::to_string_from_display_ensures::<serde_json::Error>(
                &e,
                r->Err_0.detail,
            ),
        },
{
    match parsed {
        Ok(document) => Ok(document),
        Err(e) => Err(Failure::with_detail(ErrorKind::ResponseParseError, e.to_string())),
    }
}

/// Reads the document out of a reply.
pub fn read_reply(reply: TransportReply) -> (r: Result<Json, Failure>)
    ensures
        document_view(r) == reply_outcome(reply),
        reply matches TransportReply::Failed(why) ==> r->Err_0.detail == why,
{
    match reply {
        TransportReply::Failed(why) => Err(Failure::with_detail(ErrorKind::TransportError, why)),
        TransportReply::Body(body) => response_from(parse_bytes(body.as_slice())),
    }
}

/// Takes the block hash out of the reply to the hash query.
pub fn block_hash_of(response: &Json) -> (r: Result<&str, Failure>)
    ensures
        match r {
            Ok(hash) => hash_result(response@) == Ok::<_, ErrorKind>(hash@),
            Err(failure) => hash_result(response@) == Err::<Seq<char>, _>(failure.kind)
                && failure.detail@.len() == 0,
        },
{
    match response.get("result") {
        Some(result) => match result.as_str() {
            Some(hash) => Ok(hash),
            None => Err(Failure::new(ErrorKind::MissingHashResult)),
        },
        None => Err(Failure::new(ErrorKind::MissingHashResult)),
    }
}

/// Takes the block's text out of the reply to the block query.
pub fn block_text_of(response: &Json) -> (r: Result<&str, Failure>)
    ensures
        match r {
            Ok(text) => block_text(response@) == Ok::<_, ErrorKind>(text@),
            Err(failure) => block_text(response@) == Err::<Seq<char>, _>(failure.kind)
                && failure.detail@.len() == 0,
        },
{
    match response.get("result") {
        Some(result) => match result.as_str() {
            Some(text) => Ok(text),
            None => Err(Failure::new(ErrorKind::BlockJsonParseError)),
        },
        None => Err(Failure::new(ErrorKind::MissingBlockResult)),
    }
}

/// Accepts the parsed text of a block: a parser's error is
/// `BlockJsonParseError` with the parser's words, `null` is `BlockNotFound`,
/// any other document is the block.
pub fn block_from(parsed: Result<Json, serde_json::Error>) -> (r: Result<Json, Failure>)
    ensures
        match parsed {
            Ok(block) => if block@ == JsonValue::Null {
                r is Err && r->Err_0.kind == ErrorKind::BlockNotFound && r->Err_0.detail@.len()
                    == 0
            } else {
                r == Ok::<_, Failure>(block)
            },
            Err(e) => r is Err && r->Err_0.kind == ErrorKind::BlockJsonParseError
                && vstd::string::to_string_from_display_ensures::<serde_json::Error>(
                &e,
                r->Err_0.detail,
            ),
        },
{
    match parsed {
        Ok(block) => {
            if block.is_null() {
                Err(Failure::new(ErrorKind::BlockNotFound))
            } else {
                Ok(block)
            }
        },
        Err(e) => Err(Failure::with_detail(ErrorKind::BlockJsonParseError, e.to_string())),
    }
}

fn member(name: &str, value: Json) -> (m: Member)
    ensures
        m@ == (MemberValue { name: name@, value: value@ }),
{
    Member { name: String::from_str(name), value }
}

fn one_text_param(text: String) -> (params: Json)
    ensures
        params@ == one_text(text@),
{
    let mut items: Vec<Json> = Vec::new();
    items.push(Json::Text(text));
    proof {
        lemma_array_view(items);
        assert(items_view(items@) =~= seq![JsonValue::Text(text@)]);
    }
    Json::Array(items)
}

impl RpcClient {
    /// A client of the node at `url`.
    pub fn new(url: &str) -> (client: RpcClient)
        ensures
            client.url@ == url@,
    {
        RpcClient { url: String::from_str(url) }
    }

    /// Words a call of `method`: the request to post to the node. Without
    /// `params` the parameter list is empty.
    pub fn send_raw_request(&self, method: &str, params: Option<Json>) -> (request: RpcRequest)
        ensures
            request.url@ == self.url@,
            request.body@ == envelope(
                method@,
                match params {
                    Some(p) => p@,
                    None => JsonValue::Array(Seq::empty()),
                },
            ),
    {
        let params = match params {
            Some(p) => p,
            None => {
                let none: Vec<Json> = Vec::new();
                proof {
                    lemma_array_view(none);
                    assert(items_view(none@) =~= Seq::<JsonValue>::empty());
                }
                Json::Array(none)
            },
        };
        let ghost params_value = params@;
        let mut members: Vec<Member> = Vec::new();
        members.push(member("jsonrpc", Json::Text(String::from_str("2.0"))));
        members.push(member("method", Json::Text(String::from_str(method))));
        members.push(member("params", params));
        members.push(member("id", Json::Number(String::from_str("1"))));
        proof {
            lemma_object_view(members);
            assert(members_view(members@) =~= envelope(method@, params_value)->Object_0);
        }
        RpcRequest { url: self.url.clone(), body: Json::Object(members) }
    }

    /// Begins the resolution of block `block_number`: the first step asks
    /// the node for the block's hash.
    pub fn get_block_at_number(&self, block_number: u64) -> (step: Step)
        ensures
            step@ == (StepValue::Send {
                url: self.url@,
                body: hash_request(block_number as nat),
                stage: Stage::AwaitingHash,
            }),
    {
        let params = one_text_param(block_number_hex(block_number));
        let request = self.send_raw_request("chain_getBlockHash", Some(params));
        Step::Send { request, stage: Stage::AwaitingHash }
    }

    /// Continues a resolution with the document `response`, received at
    /// `stage`.
    pub fn advance(&self, stage: Stage, response: &Json) -> (step: Step)
        ensures
            step@ == step_after(self.url@, stage, response@),
    {
        match stage {
            Stage::AwaitingHash => match block_hash_of(response) {
                Ok(hash) => {
                    let params = one_text_param(String::from_str(hash));
                    let request = self.send_raw_request("midnight_jsonBlock", Some(params));
                    Step::Send { request, stage: Stage::AwaitingBlock }
                },
                Err(failure) => Step::Failed(failure),
            },
            Stage::AwaitingBlock => match block_text_of(response) {
                Ok(text) => match block_from(parse_text(text)) {
                    Ok(block) => Step::Done(block),
                    Err(failure) => Step::Failed(failure),
                },
                Err(failure) => Step::Failed(failure),
            },
        }
    }

    /// Continues a resolution with the reply to the request that the last
    /// step asked for.
    pub fn resume(&self, stage: Stage, reply: TransportReply) -> (step: Step)
        ensures
            step@ == next_step(self.url@, stage, reply),
    {
        match read_reply(reply) {
            Ok(response) => self.advance(stage, &response),
            Err(failure) => Step::Failed(failure),
        }
    }
}

/// A resolution posts two requests at most, the second for the block, and
/// never hands out `null` as a block: after the reply to the hash query it
/// fails or asks for the block; after the reply to the block query it
/// fails or is done.
pub proof fn lemma_resolution_ends(url: Seq<char>, stage: Stage, reply: TransportReply)
    ensures
        stage == Stage::AwaitingHash ==> !(next_step(url, stage, reply) is Done),
        next_step(url, stage, reply) matches StepValue::Send { url: to, body, stage: then } ==> {
            &&& stage == Stage::AwaitingHash
            &&& then == Stage::AwaitingBlock
            &&& to == url
            &&& hash_result(reply_outcome(reply)->Ok_0) matches Ok(hash) && body == block_request(
                hash,
            )
        },
        next_step(url, stage, reply) matches StepValue::Done(block) ==> block != JsonValue::Null,
{
}

} // verus!
