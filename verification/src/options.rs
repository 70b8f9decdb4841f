//! The options of a request that the driver reads, and the names under which it looks for them.
use vstd::prelude::*;

verus! {

/// An option of a request. Each goes by several names, of which the first that is given counts.
#[derive(Debug, Clone, Copy)]
pub enum Lookup {
    /// The whole URL of the server.
    Endpoint,
    /// The host of the server.
    Host,
    /// The port of the server.
    Port,
    /// Whether the connection is encrypted.
    Tls,
    /// The token to present.
    Token,
    /// The user to present.
    User,
    /// The password to present.
    Password,
    /// The file with the root certificates to trust.
    RootCert,
    /// The file with the certificate to present.
    ClientCert,
    /// The file with the key of that certificate.
    ClientKey,
    /// Whether any certificate of the server will do.
    Insecure,
    /// The collection to query.
    Collection,
}

/// What a request says under each option, as far as it says anything.
#[derive(Debug)]
pub struct RequestOptions {
    pub endpoint: Option<String>,
    pub host: Option<String>,
    pub port: Option<String>,
    pub tls: Option<bool>,
    pub token: Option<String>,
    pub user: Option<String>,
    pub password: Option<String>,
    pub root_cert: Option<String>,
    pub client_cert: Option<String>,
    pub client_key: Option<String>,
    pub insecure: Option<String>,
    pub collection: Option<String>,
}

/// The text of an option that may be missing.
pub open spec fn text_of(option: Option<String>) -> Option<Seq<char>> {
    match option {
        Some(s) => Some(s@),
        None => None,
    }
}

/// The texts that strings hold.
pub open spec fn texts_of(strings: Seq<String>) -> Seq<Seq<char>> {
    Seq::new(strings.len(), |i: int| strings[i]@)
}

/// An outcome, with the text of the error in place of the error.
pub open spec fn outcome_of<T>(outcome: Result<T, String>) -> Result<T, Seq<char>> {
    match outcome {
        Ok(value) => Ok(value),
        Err(why) => Err(why@),
    }
}

/// An outcome that is a list, with the text of the error in place of the error.
pub open spec fn list_of<T>(outcome: Result<Vec<T>, String>) -> Result<Seq<T>, Seq<char>> {
    match outcome {
        Ok(values) => Ok(values@),
        Err(why) => Err(why@),
    }
}

impl Lookup {
    /// The names of the option, the one that counts first in front.
    pub open spec fn names(self) -> Seq<Seq<char>> {
        match self {
            Lookup::Endpoint => seq!["connectionString"@, "url"@, "dsn"@],
            Lookup::Host => seq!["host"@, "endpoint"@],
            Lookup::Port => seq!["port"@],
            Lookup::Tls => seq!["tls"@, "ssl"@],
            Lookup::Token => seq!["token"@, "apiKey"@, "bearerToken"@, "accessToken"@],
            Lookup::User => seq!["user"@, "username"@],
            Lookup::Password => seq!["password"@],
            Lookup::RootCert => seq!["sslRootCert"@, "sslrootcert"@, "ssl-ca"@, "caCert"@],
            Lookup::ClientCert => seq!["sslCert"@, "sslcert"@, "ssl-cert"@, "clientCert"@],
            Lookup::ClientKey => seq!["sslKey"@, "sslkey"@, "ssl-key"@, "clientKey"@],
            Lookup::Insecure => seq!["sslInsecure"@, "tlsInsecure"@],
            Lookup::Collection => seq!["collection"@, "collectionName"@],
        }
    }

    /// The names of the option, the one that counts first in front.
    pub fn keys(self) -> (r: Vec<&'static str>)
        ensures
            r.len() == self.names().len(),
            forall|i: int| 0 <= i < r.len() ==> (#[trigger] r@[i])@ == self.names()[i],
    {
        match self {
            Lookup::Endpoint => vec!["connectionString", "url", "dsn"],
            Lookup::Host => vec!["host", "endpoint"],
            Lookup::Port => vec!["port"],
            Lookup::Tls => vec!["tls", "ssl"],
            Lookup::Token => vec!["token", "apiKey", "bearerToken", "accessToken"],
            Lookup::User => vec!["user", "username"],
            Lookup::Password => vec!["password"],
            Lookup::RootCert => vec!["sslRootCert", "sslrootcert", "ssl-ca", "caCert"],
            Lookup::ClientCert => vec!["sslCert", "sslcert", "ssl-cert", "clientCert"],
            Lookup::ClientKey => vec!["sslKey", "sslkey", "ssl-key", "clientKey"],
            Lookup::Insecure => vec!["sslInsecure", "tlsInsecure"],
            Lookup::Collection => vec!["collection", "collectionName"],
        }
    }
}

impl Default for RequestOptions {
    /// The options of a request that gives none.
    fn default() -> (r: RequestOptions)
        ensures
            r == (RequestOptions {
                endpoint: None,
                host: None,
                port: None,
                tls: None,
                token: None,
                user: None,
                password: None,
                root_cert: None,
                client_cert: None,
                client_key: None,
                insecure: None,
                collection: None,
            }),
    {
        RequestOptions {
            endpoint: None,
            host: None,
            port: None,
            tls: None,
            token: None,
            user: None,
            password: None,
            root_cert: None,
            client_cert: None,
            client_key: None,
            insecure: None,
            collection: None,
        }
    }
}

/// The option again.
pub fn copy_option(option: &Option<String>) -> (r: Option<String>)
    ensures
        r == *option,
{
    match option {
        Some(s) => Some(s.clone()),
        None => None,
    }
}

/// An option that is looked for first under one name is looked for under the others only after it:
/// these are the first names, and no two options share one.
pub proof fn law_options_go_by_their_first_names(lookup: Lookup)
    ensures
        lookup.names().len() > 0,
        lookup is Endpoint <==> lookup.names()[0] == "connectionString"@,
        lookup is Host <==> lookup.names()[0] == "host"@,
        lookup is Port <==> lookup.names()[0] == "port"@,
        lookup is Tls <==> lookup.names()[0] == "tls"@,
        lookup is Token <==> lookup.names()[0] == "token"@,
        lookup is User <==> lookup.names()[0] == "user"@,
        lookup is Password <==> lookup.names()[0] == "password"@,
        lookup is RootCert <==> lookup.names()[0] == "sslRootCert"@,
        lookup is ClientCert <==> lookup.names()[0] == "sslCert"@,
        lookup is ClientKey <==> lookup.names()[0] == "sslKey"@,
        lookup is Insecure <==> lookup.names()[0] == "sslInsecure"@,
        lookup is Collection <==> lookup.names()[0] == "collection"@,
{
    reveal_strlit("connectionString");
    reveal_strlit("host");
    reveal_strlit("port");
    reveal_strlit("tls");
    reveal_strlit("token");
    reveal_strlit("user");
    reveal_strlit("password");
    reveal_strlit("sslRootCert");
    reveal_strlit("sslCert");
    reveal_strlit("sslKey");
    reveal_strlit("sslInsecure");
    reveal_strlit("collection");
    assert("connectionString"@.len() == 16 && "tls"@.len() == 3 && "token"@.len() == 5);
    assert("host"@.len() == 4 && "port"@.len() == 4 && "user"@.len() == 4);
    assert("host"@[0] == 'h' && "port"@[0] == 'p' && "user"@[0] == 'u');
    assert("password"@.len() == 8 && "sslCert"@.len() == 7 && "sslKey"@.len() == 6);
    assert("sslRootCert"@.len() == 11 && "sslInsecure"@.len() == 11 && "collection"@.len() == 10);
    assert("sslRootCert"@[3] == 'R' && "sslInsecure"@[3] == 'I');
}

/// The files of transport security go by the names that other tools have for them as well, in this
/// order.
pub proof fn law_files_go_by_the_names_of_other_tools()
    ensures
        ({
            let names = Lookup::RootCert.names();
            names.len() == 4 && names[1] == "sslrootcert"@ && names[2] == "ssl-ca"@ && names[3]
                == "caCert"@
        }),
        ({
            let names = Lookup::ClientCert.names();
            names.len() == 4 && names[1] == "sslcert"@ && names[2] == "ssl-cert"@ && names[3]
                == "clientCert"@
        }),
        ({
            let names = Lookup::ClientKey.names();
            names.len() == 4 && names[1] == "sslkey"@ && names[2] == "ssl-key"@ && names[3]
                == "clientKey"@
        }),
{
}

/// Texts, and outcomes with a text for an error, are seen as they are.
pub proof fn law_texts_and_outcomes_are_seen_as_they_are<T>(
    option: Option<String>,
    strings: Seq<String>,
    outcome: Result<T, String>,
    list: Result<Vec<T>, String>,
)
    ensures
        option is None <==> text_of(option) is None,
        option matches Some(text) ==> text_of(option) == Some(text@),
        texts_of(strings).len() == strings.len(),
        forall|i: int| 0 <= i < strings.len() ==> #[trigger] texts_of(strings)[i] == strings[i]@,
        outcome matches Ok(value) ==> outcome_of(outcome) == Ok::<T, Seq<char>>(value),
        outcome matches Err(why) ==> outcome_of(outcome) == Err::<T, Seq<char>>(why@),
        list matches Ok(values) ==> list_of(list) == Ok::<Seq<T>, Seq<char>>(values@),
        list matches Err(why) ==> list_of(list) == Err::<Seq<T>, Seq<char>>(why@),
{
}

} // verus!
