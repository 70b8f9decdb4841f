//! One exchange with the server: the request that is sent, and what the answer comes to.
use crate::config::MilvusConfig;
use crate::json::{Json, JsonView};
use crate::options::copy_option;
use crate::order::ordered;
use crate::value::{parse, parsed};
use vstd::prelude::*;

verus! {

/// A request to the server: a POST of a JSON body, with the token to present, if there is one.
#[derive(Debug)]
pub struct PostRequest {
    pub url: String,
    pub token: Option<String>,
    pub body: Json,
}

impl PostRequest {
    /// This is the request that posts a body to a path of the server of a configuration.
    pub open spec fn goes_to(self, config: MilvusConfig, path: Seq<char>, body: JsonView) -> bool {
        &&& self.url@ == config.base_url@ + path
        &&& self.token == config.token
        &&& self.body@ == body
    }
}

/// What came of a request.
#[derive(Debug)]
pub enum Exchange {
    /// There was nothing to run it on; this is what is said of that.
    NotStarted(String),
    /// It could not be sent, and why.
    NotSent(String),
    /// An answer came and could not be read, and why.
    NotRead(String),
    /// An answer came, with the code of its status and the text in it.
    Answered { status: u16, text: String },
}

/// How a status is written, with its code and its reason: what `reqwest::StatusCode` shows.
pub uninterp spec fn status_line(status: u16) -> Seq<char>;

/// A JSON value, or what is said where there is none.
pub open spec fn reply_of(outcome: Result<Json, String>) -> Result<JsonView, Seq<char>> {
    match outcome {
        Ok(value) => Ok(value@),
        Err(why) => Err(why@),
    }
}

/// The status says that the request was carried out.
pub open spec fn is_success(status: u16) -> bool {
    200 <= status < 300
}

/// The code in a reply, and success where there is none.
pub open spec fn code_of(value: JsonView) -> i64 {
    match value.field("code"@) {
        Some(code) => match code.integer() {
            Some(code) => code,
            None => 0,
        },
        None => 0,
    }
}

/// What a reply says of an error.
pub open spec fn complaint(value: JsonView) -> Seq<char> {
    let said = match value.field("message"@) {
        Some(message) => Some(message),
        None => value.field("reason"@),
    };
    match said {
        Some(JsonView::String(message)) => message,
        _ => "Milvus API returned an error."@,
    }
}

/// A reply, if its code is one of success.
pub open spec fn checked(value: JsonView) -> Result<JsonView, Seq<char>> {
    if code_of(value) == 0 || code_of(value) == 200 {
        Ok(value)
    } else {
        Err(complaint(value))
    }
}

/// What an answer comes to.
pub open spec fn answer(status: u16, text: Seq<char>) -> Result<JsonView, Seq<char>> {
    if is_success(status) {
        match parsed(text) {
            Ok(value) => checked(value),
            Err(why) => Err("Milvus JSON response parse failed: "@ + why + ": "@ + text),
        }
    } else {
        Err("Milvus returned HTTP "@ + status_line(status) + ": "@ + text)
    }
}

impl Exchange {
    /// The status of an answer is one of three digits.
    pub open spec fn wf(self) -> bool {
        self matches Exchange::Answered { status, text } ==> 100 <= status < 1000
    }

    /// What the exchange comes to.
    pub open spec fn reply(self) -> Result<JsonView, Seq<char>> {
        match self {
            Exchange::NotStarted(message) => Err(message@),
            Exchange::NotSent(why) => Err("Milvus request failed: "@ + why@),
            Exchange::NotRead(why) => Err("Milvus response read failed: "@ + why@),
            Exchange::Answered { status, text } => answer(status, text@),
        }
    }
}

/// `reqwest::StatusCode`, made of its code and shown: the text is a function of the code.
#[verifier::external_body]
fn show_status(status: u16) -> (r: String)
    requires
        100 <= status < 1000,
    ensures
        r@ == status_line(status),
{
    reqwest::StatusCode::from_u16(status).unwrap().to_string()
}

/// A reply, if its code is one of success, and otherwise what it says of the error.
pub fn check_reply(value: Json) -> (r: Result<Json, String>)
    ensures
        reply_of(r) == checked(value@),
        r matches Ok(reply) ==> reply == value,
{
    let code: i64 = match value.get("code") {
        Some(code) => match code.as_i64() {
            Some(code) => code,
            None => 0,
        },
        None => 0,
    };
    if code == 0 || code == 200 {
        return Ok(value);
    }
    let said = match value.get("message") {
        Some(message) => Some(message),
        None => value.get("reason"),
    };
    let message = match said {
        Some(said) => match said.as_str() {
            Some(message) => message,
            None => "Milvus API returned an error.",
        },
        None => "Milvus API returned an error.",
    };
    Err(message.to_owned())
}

/// What an exchange comes to: the reply of the server, or what is said where there is none.
pub fn read_reply(exchange: Exchange) -> (r: Result<Json, String>)
    requires
        exchange.wf(),
    ensures
        reply_of(r) == exchange.reply(),
        r matches Ok(reply) ==> ordered(reply),
{
    match exchange {
        Exchange::NotStarted(message) => Err(message),
        Exchange::NotSent(why) => Err(
            "Milvus request failed: ".to_owned().concat(why.as_str()),
        ),
        Exchange::NotRead(why) => Err(
            "Milvus response read failed: ".to_owned().concat(why.as_str()),
        ),
        Exchange::Answered { status, text } => {
            if status < 200 || 300 <= status {
                return Err(
                    "Milvus returned HTTP ".to_owned().concat(
                        show_status(status).as_str(),
                    ).concat(": ").concat(text.as_str()),
                );
            }
            match parse(text.as_str()) {
                Ok(value) => check_reply(value),
                Err(why) => Err(
                    "Milvus JSON response parse failed: ".to_owned().concat(why.as_str()).concat(
                        ": ",
                    ).concat(text.as_str()),
                ),
            }
        },
    }
}

impl MilvusConfig {
    /// The request that posts a body to a path of the server.
    pub fn post(&self, path: &str, body: Json) -> (r: PostRequest)
        ensures
            r.url@ == self.base_url@ + path@,
            r.token == self.token,
            r.body == body,
            r.goes_to(*self, path@, body@),
    {
        PostRequest {
            url: self.base_url.clone().concat(path),
            token: copy_option(&self.token),
            body,
        }
    }
}

/// A reply is taken for a success exactly where its code is 0 or 200, or where it gives no code
/// that is an integer; it is then handed on unchanged.
pub proof fn law_success_is_told_by_the_code(value: JsonView)
    ensures
        checked(value) is Ok <==> (match value.field("code"@) {
            Some(code) => code.integer() is None || code.integer() == Some(0i64) || code.integer()
                == Some(200i64),
            None => true,
        }),
        checked(value) matches Ok(reply) ==> reply == value,
{
}

/// What comes of an exchange: what could not be started is told in its own words; what could not be
/// sent or read, with the reason; an answer counts exactly where its status is one from 200 to 299,
/// and is told with its status and its text where it is not.
pub proof fn law_an_exchange_is_told_as_it_went(exchange: Exchange)
    ensures
        exchange matches Exchange::NotStarted(message) ==> exchange.reply() == Err::<
            JsonView,
            Seq<char>,
        >(message@),
        exchange matches Exchange::NotSent(why) ==> exchange.reply() == Err::<JsonView, Seq<char>>(
            "Milvus request failed: "@ + why@,
        ),
        exchange matches Exchange::NotRead(why) ==> exchange.reply() == Err::<JsonView, Seq<char>>(
            "Milvus response read failed: "@ + why@,
        ),
        exchange matches Exchange::Answered { status, text } ==> {
            &&& status < 200 || status > 299 ==> exchange.reply() == Err::<JsonView, Seq<char>>(
                "Milvus returned HTTP "@ + status_line(status) + ": "@ + text@,
            )
            &&& 200 <= status <= 299 ==> (match parsed(text@) {
                Ok(value) => exchange.reply() == checked(value),
                Err(why) => exchange.reply() == Err::<JsonView, Seq<char>>(
                    "Milvus JSON response parse failed: "@ + why + ": "@ + text@,
                ),
            })
        },
{
}

/// An error of the server is told in its own words: those under `message` or, without anything
/// there, those under `reason`, where they are a text.
pub proof fn law_an_error_is_told_in_the_words_of_the_server(value: JsonView)
    requires
        checked(value) is Err,
    ensures
        value.field("message"@) matches Some(JsonView::String(words)) ==> checked(value) == Err::<
            JsonView,
            Seq<char>,
        >(words),
        value.field("message"@) is None ==> (value.field("reason"@) matches Some(
            JsonView::String(words),
        ) ==> checked(value) == Err::<JsonView, Seq<char>>(words)),
        (value.field("message"@) matches Some(other) && !(other is String)) || (value.field(
            "message"@,
        ) is None && !(value.field("reason"@) matches Some(JsonView::String(_)))) ==> checked(value)
            == Err::<JsonView, Seq<char>>("Milvus API returned an error."@),
{
}

/// What came of reading a reply is seen as it is.
pub proof fn law_a_reply_is_seen_as_it_is(value: Json, why: String)
    ensures
        reply_of(Ok(value)) == Ok::<JsonView, Seq<char>>(value@),
        reply_of(Err(why)) == Err::<JsonView, Seq<char>>(why@),
{
}

/// A request goes to the server of its configuration, to the path that is asked for and no other,
/// presents the token of that configuration, and carries the body unchanged.
pub proof fn law_a_request_presents_the_token(
    request: PostRequest,
    config: MilvusConfig,
    path: Seq<char>,
    body: JsonView,
)
    requires
        request.goes_to(config, path, body),
    ensures
        config.base_url@.is_prefix_of(request.url@),
        request.url@.skip(config.base_url@.len() as int) == path,
        config.token is None <==> request.token is None,
        config.token matches Some(token) ==> (request.token matches Some(presented) && presented@
            == token@),
        request.body@ == body,
{
    assert(request.url@.skip(config.base_url@.len() as int) =~= path);
}

} // verus!
