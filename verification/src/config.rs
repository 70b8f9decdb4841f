//! How a server is reached, and what must not be shown of that.
use crate::options::{text_of, texts_of, RequestOptions};
use crate::text::{
    apart, law_a_trailing_run_is_taken_off, law_the_first_match_is_replaced,
    lemma_replaced_brings_nothing, lemma_replaced_is_gone, lemma_replaced_nothing,
    lemma_without_trailing, occurs, replace, replaced, stands_at, trim_end_matches,
    without_trailing,
};
use crate::tls::TlsConfig;
use vstd::prelude::*;

verus! {

/// How a server is reached: its URL without a slash at the end, the token to present, the
/// transport security, and what must not be shown to anyone.
#[derive(Debug, Clone, PartialEq, Eq)]
pub struct MilvusConfig {
    pub base_url: String,
    pub token: Option<String>,
    pub tls: TlsConfig,
    pub redaction_values: Vec<String>,
}

/// The URL that host, port and encryption make up.
pub open spec fn built_url(options: RequestOptions) -> Seq<char> {
    let scheme = if options.tls == Some(true) {
        "https"@
    } else {
        "http"@
    };
    let host = match options.host {
        Some(host) => host@,
        None => "127.0.0.1"@,
    };
    let port = match options.port {
        Some(port) => port@,
        None => "19530"@,
    };
    scheme + "://"@ + host + ":"@ + port
}

/// The URL as the options give it.
pub open spec fn given_url(options: RequestOptions) -> Seq<char> {
    match options.endpoint {
        Some(url) => url@,
        None => built_url(options),
    }
}

/// The token to present: the one that is given, or else user and password, if both are.
pub open spec fn given_token(options: RequestOptions) -> Option<Seq<char>> {
    match (options.token, options.user, options.password) {
        (Some(token), _, _) => Some(token@),
        (None, Some(user), Some(password)) => Some(user@ + ":"@ + password@),
        _ => None,
    }
}

/// The message with every secret starred out, one secret after the other.
pub open spec fn starred(message: Seq<char>, secrets: Seq<Seq<char>>) -> Seq<char>
    decreases secrets.len(),
{
    if secrets.len() == 0 {
        message
    } else {
        let before = starred(message, secrets.drop_last());
        if secrets.last().len() == 0 {
            before
        } else {
            replaced(before, secrets.last(), "****"@)
        }
    }
}

/// The message as it may be shown: without the URL of the server and without the secrets.
pub open spec fn redacted(
    message: Seq<char>,
    base_url: Seq<char>,
    secrets: Seq<Seq<char>>,
) -> Seq<char> {
    starred(replaced(message, base_url, "<milvus-url>"@), secrets)
}

/// The URL that host, port and encryption make up.
pub fn build_url(options: &RequestOptions) -> (r: String)
    ensures
        r@ == built_url(*options),
{
    let scheme = match options.tls {
        Some(true) => "https",
        _ => "http",
    };
    let host = match &options.host {
        Some(host) => host.as_str(),
        None => "127.0.0.1",
    };
    let port = match &options.port {
        Some(port) => port.as_str(),
        None => "19530",
    };
    scheme.to_owned().concat("://").concat(host).concat(":").concat(port)
}

/// The URL as the options give it.
pub fn requested_url(options: &RequestOptions) -> (r: String)
    ensures
        r@ == given_url(*options),
{
    match &options.endpoint {
        Some(url) => url.clone(),
        None => build_url(options),
    }
}

/// The token to present: the one that is given, or else user and password, if both are.
pub fn requested_token(options: &RequestOptions) -> (r: Option<String>)
    ensures
        text_of(r) == given_token(*options),
{
    match (&options.token, &options.user, &options.password) {
        (Some(token), _, _) => Some(token.clone()),
        (None, Some(user), Some(password)) => Some(
            user.clone().concat(":").concat(password.as_str()),
        ),
        _ => None,
    }
}

impl MilvusConfig {
    /// What a message says after the URL and the secrets have been taken out of it.
    pub open spec fn shown(self, message: Seq<char>) -> Seq<char> {
        redacted(message, self.base_url@, texts_of(self.redaction_values@))
    }

    /// This is the configuration that the options ask for, with these secrets.
    pub open spec fn asked_for(self, options: RequestOptions, secrets: Seq<String>) -> bool {
        &&& self.base_url@ == without_trailing(given_url(options), '/')
        &&& text_of(self.token) == given_token(options)
        &&& self.tls.asked_for(options)
        &&& self.redaction_values@ == secrets
    }

    /// The configuration that the options of a request ask for. `redaction_values` are the
    /// secrets in the requested token and in the requested URL.
    pub fn from_request(options: &RequestOptions, redaction_values: Vec<String>) -> (r: Result<
        MilvusConfig,
        String,
    >)
        ensures
            r matches Ok(config) && {
                &&& config.base_url@ == without_trailing(given_url(*options), '/')
                &&& text_of(config.token) == given_token(*options)
                &&& config.tls.asked_for(*options)
                &&& config.redaction_values == redaction_values
                &&& config.asked_for(*options, redaction_values@)
            },
    {
        let base_url = requested_url(options);
        let token = requested_token(options);
        let tls = TlsConfig::from_request(options);
        Ok(
            MilvusConfig {
                base_url: trim_end_matches(base_url.as_str(), '/').to_owned(),
                token,
                tls,
                redaction_values,
            },
        )
    }

    /// The message as it may be shown: without the URL of the server and without the secrets.
    pub fn redact(&self, message: &str) -> (r: String)
        ensures
            r@ == self.shown(message@),
    {
        let mut shown = replace(message, self.base_url.as_str(), "<milvus-url>");
        let ghost start = shown@;
        let ghost secrets = texts_of(self.redaction_values@);
        let mut i: usize = 0;
        assert(secrets.take(0) =~= Seq::empty());
        while i < self.redaction_values.len()
            invariant
                i <= self.redaction_values.len(),
                secrets == texts_of(self.redaction_values@),
                shown@ == starred(start, secrets.take(i as int)),
            decreases self.redaction_values.len() - i,
        {
            let secret = self.redaction_values[i].as_str();
            assert(secrets.take(i + 1).drop_last() =~= secrets.take(i as int));
            assert(secrets.take(i + 1).last() == secret@);
            if !secret.is_empty() {
                shown = replace(shown.as_str(), secret, "****");
            }
            i = i + 1;
        }
        assert(secrets.take(i as int) =~= secrets);
        shown
    }
}

/// Starring secrets out brings nothing in that is apart from the stars.
proof fn lemma_starred_brings_nothing(
    message: Seq<char>,
    secrets: Seq<Seq<char>>,
    pattern: Seq<char>,
)
    requires
        apart(pattern, "****"@),
        occurs(starred(message, secrets), pattern),
    ensures
        occurs(message, pattern),
    decreases secrets.len(),
{
    if secrets.len() > 0 {
        let before = starred(message, secrets.drop_last());
        if secrets.last().len() > 0 {
            lemma_replaced_brings_nothing(before, secrets.last(), "****"@, pattern);
        }
        lemma_starred_brings_nothing(message, secrets.drop_last(), pattern);
    }
}

proof fn lemma_starred_is_gone(message: Seq<char>, secrets: Seq<Seq<char>>, k: int)
    requires
        0 <= k < secrets.len(),
        apart(secrets[k], "****"@),
    ensures
        !occurs(starred(message, secrets), secrets[k]),
    decreases secrets.len(),
{
    let before = starred(message, secrets.drop_last());
    if k == secrets.len() - 1 {
        lemma_replaced_is_gone(before, secrets[k], "****"@);
    } else {
        lemma_starred_is_gone(message, secrets.drop_last(), k);
        if secrets.last().len() > 0 && occurs(starred(message, secrets), secrets[k]) {
            lemma_replaced_brings_nothing(before, secrets.last(), "****"@, secrets[k]);
        }
    }
}

/// No secret stands in a message that may be shown, whatever the message was, unless it can meet
/// the stars that are put in its place.
pub proof fn law_no_secret_is_shown(
    message: Seq<char>,
    base_url: Seq<char>,
    secrets: Seq<Seq<char>>,
    k: int,
)
    requires
        0 <= k < secrets.len(),
        apart(secrets[k], "****"@),
    ensures
        !occurs(redacted(message, base_url, secrets), secrets[k]),
{
    lemma_starred_is_gone(replaced(message, base_url, "<milvus-url>"@), secrets, k);
}

/// Where there is no secret, none is starred out.
proof fn lemma_starred_without_secrets(message: Seq<char>, secrets: Seq<Seq<char>>)
    requires
        no_secrets(secrets),
    ensures
        starred(message, secrets) == message,
    decreases secrets.len(),
{
    if secrets.len() > 0 {
        let rest = secrets.drop_last();
        assert forall|k: int| 0 <= k < rest.len() implies (#[trigger] rest[k]).len() == 0 by {
            assert(secrets[k].len() == 0);
        }
        assert(secrets[secrets.len() - 1].len() == 0);
        lemma_starred_without_secrets(message, rest);
    }
}

/// None of the texts is a secret: all are empty.
pub open spec fn no_secrets(secrets: Seq<Seq<char>>) -> bool {
    forall|k: int| 0 <= k < secrets.len() ==> (#[trigger] secrets[k]).len() == 0
}

/// The URL of the server does not stand in a message that may be shown, whatever the message was,
/// unless it can meet what is put in its place or in that of a secret.
pub proof fn law_no_url_is_shown(
    message: Seq<char>,
    base_url: Seq<char>,
    secrets: Seq<Seq<char>>,
)
    requires
        apart(base_url, "<milvus-url>"@),
        apart(base_url, "****"@) || no_secrets(secrets),
    ensures
        !occurs(redacted(message, base_url, secrets), base_url),
{
    let first = replaced(message, base_url, "<milvus-url>"@);
    lemma_replaced_is_gone(message, base_url, "<milvus-url>"@);
    if no_secrets(secrets) {
        lemma_starred_without_secrets(first, secrets);
    } else if occurs(starred(first, secrets), base_url) {
        lemma_starred_brings_nothing(first, secrets, base_url);
    }
}

/// A message in which neither the URL nor a secret stands is shown as it is.
pub proof fn law_harmless_message_is_kept(
    message: Seq<char>,
    base_url: Seq<char>,
    secrets: Seq<Seq<char>>,
)
    requires
        base_url.len() > 0,
        !occurs(message, base_url),
        forall|k: int|
            0 <= k < secrets.len() ==> (#[trigger] secrets[k]).len() == 0 || !occurs(
                message,
                secrets[k],
            ),
    ensures
        redacted(message, base_url, secrets) == message,
    decreases secrets.len(),
{
    if secrets.len() == 0 {
        lemma_replaced_nothing(message, base_url, "<milvus-url>"@);
    } else {
        assert forall|k: int| 0 <= k < secrets.drop_last().len() implies (
        #[trigger] secrets.drop_last()[k]).len() == 0 || !occurs(
            message,
            secrets.drop_last()[k],
        ) by {
            assert(secrets[k].len() == 0 || !occurs(message, secrets[k]));
        }
        law_harmless_message_is_kept(message, base_url, secrets.drop_last());
        let last = secrets[secrets.len() - 1];
        if last.len() > 0 {
            lemma_replaced_nothing(message, last, "****"@);
        }
    }
}

/// The URL of a configuration does not end with a slash, however many the request put there.
pub proof fn law_base_url_has_no_trailing_slash(options: RequestOptions)
    ensures
        ({
            let url = without_trailing(given_url(options), '/');
            url.len() == 0 || url.last() != '/'
        }),
{
    lemma_without_trailing(given_url(options), '/');
}

/// A URL that is made up starts with the scheme, which is encrypted exactly where the options ask
/// for encryption; then comes the host, and it ends with the port, both of them as the options give
/// them, whatever else the options say. Without a host it is the machine itself, and without a port
/// it is that of Milvus.
pub proof fn law_url_has_its_parts(options: RequestOptions)
    ensures
        ({
            let url = built_url(options);
            let start = if options.tls == Some(true) {
                "https://"@
            } else {
                "http://"@
            };
            let end = match options.port {
                Some(port) => ":"@ + port@,
                None => ":19530"@,
            };
            let host = match options.host {
                Some(host) => host@,
                None => "127.0.0.1"@,
            };
            &&& url.len() == start.len() + host.len() + end.len()
            &&& start.is_prefix_of(url)
            &&& url.subrange(start.len() as int, (start.len() + host.len()) as int) == host
            &&& url.skip(url.len() - end.len()) == end
        }),
{
    reveal_strlit("https://");
    reveal_strlit("http://");
    reveal_strlit("https");
    reveal_strlit("http");
    reveal_strlit("://");
    reveal_strlit(":");
    reveal_strlit("19530");
    reveal_strlit(":19530");
    assert("https"@ + "://"@ =~= "https://"@);
    assert("http"@ + "://"@ =~= "http://"@);
    assert(":"@ + "19530"@ =~= ":19530"@);
    let url = built_url(options);
    let start = if options.tls == Some(true) {
        "https://"@
    } else {
        "http://"@
    };
    let host = match options.host {
        Some(host) => host@,
        None => "127.0.0.1"@,
    };
    let end = match options.port {
        Some(port) => ":"@ + port@,
        None => ":19530"@,
    };
    assert(url =~= start + host + end);
    assert(url.subrange(start.len() as int, (start.len() + host.len()) as int) =~= host);
    assert(url.skip(url.len() - end.len()) =~= end);
}

/// A URL that the options give whole is the one that is used, whatever else they give: but for
/// slashes at its end the URL of a configuration is that one. Where they give none, it is the one
/// that is made up.
pub proof fn law_given_url_is_used(options: RequestOptions, url: Seq<char>, slashes: Seq<char>)
    requires
        url.len() == 0 || url.last() != '/',
        forall|i: int| 0 <= i < slashes.len() ==> #[trigger] slashes[i] == '/',
        match options.endpoint {
            Some(given) => given@ == url + slashes,
            None => built_url(options) == url + slashes,
        },
    ensures
        without_trailing(given_url(options), '/') == url,
{
    law_a_trailing_run_is_taken_off(url, slashes, '/');
}

/// The token that is given is the one that is presented; without one, it is user and password with
/// a colon between them, where both are given; otherwise there is none.
pub proof fn law_token_is_what_is_given(options: RequestOptions)
    ensures
        options.token matches Some(token) ==> given_token(options) == Some(token@),
        options.token is None ==> (given_token(options) is Some <==> options.user is Some
            && options.password is Some),
        options.token is None ==> (given_token(options) matches Some(token) ==> {
            let user = options.user->Some_0@;
            let password = options.password->Some_0@;
            &&& token.len() == user.len() + 1 + password.len()
            &&& token.take(user.len() as int) == user
            &&& token[user.len() as int] == ':'
            &&& token.skip(user.len() as int + 1) == password
        }),
{
    reveal_strlit(":");
    if let Some(token) = given_token(options) {
        if options.token is None {
            let user = options.user->Some_0@;
            let password = options.password->Some_0@;
            assert(token.take(user.len() as int) =~= user);
            assert(token.skip(user.len() as int + 1) =~= password);
        }
    }
}

/// What may be shown is the message with `<milvus-url>` in place of the URL and then with `****` in
/// place of each secret, in their order; an empty secret is none.
pub proof fn law_redaction_goes_step_by_step(
    message: Seq<char>,
    base_url: Seq<char>,
    secrets: Seq<Seq<char>>,
    secret: Seq<char>,
)
    ensures
        redacted(message, base_url, Seq::empty()) == replaced(message, base_url, "<milvus-url>"@),
        secret.len() == 0 ==> redacted(message, base_url, secrets.push(secret)) == redacted(
            message,
            base_url,
            secrets,
        ),
        secret.len() > 0 ==> redacted(message, base_url, secrets.push(secret)) == replaced(
            redacted(message, base_url, secrets),
            secret,
            "****"@,
        ),
{
    assert(secrets.push(secret).drop_last() =~= secrets);
}

/// Where the URL stands in a message for the first time, `<milvus-url>` is shown; what is in front
/// of it is kept, and so is what is behind it, as far as no URL stands there.
pub proof fn law_what_surrounds_the_url_is_kept(
    before: Seq<char>,
    base_url: Seq<char>,
    after: Seq<char>,
)
    requires
        base_url.len() > 0,
        forall|at: int| 0 <= at < before.len() ==> !#[trigger] stands_at(
            before + base_url + after,
            base_url,
            at,
        ),
        !occurs(after, base_url),
    ensures
        redacted(before + base_url + after, base_url, Seq::empty()) == before + "<milvus-url>"@
            + after,
{
    law_the_first_match_is_replaced(before, base_url, after, "<milvus-url>"@);
    lemma_replaced_nothing(after, base_url, "<milvus-url>"@);
}

/// Where the only secret stands in a message for the first time, stars are shown; what is in front
/// of it is kept, and so is what is behind it, as far as no secret stands there.
pub proof fn law_what_surrounds_a_secret_is_kept(
    before: Seq<char>,
    secret: Seq<char>,
    after: Seq<char>,
    base_url: Seq<char>,
)
    requires
        secret.len() > 0,
        base_url.len() > 0,
        !occurs(before + secret + after, base_url),
        forall|at: int| 0 <= at < before.len() ==> !#[trigger] stands_at(
            before + secret + after,
            secret,
            at,
        ),
        !occurs(after, secret),
    ensures
        redacted(before + secret + after, base_url, seq![secret]) == before + "****"@ + after,
{
    let message = before + secret + after;
    law_redaction_goes_step_by_step(message, base_url, Seq::empty(), secret);
    assert(Seq::<Seq<char>>::empty().push(secret) =~= seq![secret]);
    lemma_replaced_nothing(message, base_url, "<milvus-url>"@);
    law_the_first_match_is_replaced(before, secret, after, "****"@);
    lemma_replaced_nothing(after, secret, "****"@);
}

/// What a configuration shows of a message is what is left of it without the URL and the secrets of
/// that configuration.
pub proof fn law_a_configuration_hides_its_own(config: MilvusConfig, message: Seq<char>)
    ensures
        config.shown(message) == redacted(
            message,
            config.base_url@,
            config.redaction_values@.map_values(|secret: String| secret@),
        ),
{
    assert(texts_of(config.redaction_values@) =~= config.redaction_values@.map_values(
        |secret: String| secret@,
    ));
}

/// A configuration holds what the options ask for: the URL up to its last slashes, the token, user
/// and password as one where there is no token, every file of transport security, and every secret
/// that it was given, so that none of them is shown.
pub proof fn law_a_configuration_holds_what_is_asked_for(
    config: MilvusConfig,
    options: RequestOptions,
    secrets: Seq<String>,
    message: Seq<char>,
    k: int,
)
    requires
        config.asked_for(options, secrets),
        0 <= k < secrets.len(),
    ensures
        config.base_url@.is_prefix_of(given_url(options)),
        config.base_url@.len() == 0 || config.base_url@.last() != '/',
        config.token is Some <==> options.token is Some || (options.user is Some
            && options.password is Some),
        options.token matches Some(given) ==> (config.token matches Some(token) && token@
            == given@),
        config.tls.root_cert_path == options.root_cert,
        config.tls.client_cert_path == options.client_cert,
        config.tls.client_key_path == options.client_key,
        config.redaction_values@ == secrets,
        apart(secrets[k]@, "****"@) ==> !occurs(config.shown(message), secrets[k]@),
{
    lemma_without_trailing(given_url(options), '/');
    if apart(secrets[k]@, "****"@) {
        law_no_secret_is_shown(
            message,
            config.base_url@,
            texts_of(config.redaction_values@),
            k,
        );
    }
}

} // verus!
