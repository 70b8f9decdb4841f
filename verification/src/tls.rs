//! Transport security: which certificates a client trusts, and which it presents.
use crate::options::{copy_option, list_of, outcome_of, RequestOptions};
use crate::text::{
    is_white_space, law_margins_are_taken_off, occurs, same_text, trim, trimmed,
};
use vstd::prelude::*;

verus! {

/// A certificate that a client trusts.
#[verifier::external_type_specification]
#[verifier::external_body]
pub struct ExCertificate(reqwest::Certificate);

/// A certificate that a client presents, with its key.
#[verifier::external_type_specification]
#[verifier::external_body]
pub struct ExIdentity(reqwest::Identity);

/// A client that is being put together.
#[verifier::external_type_specification]
#[verifier::external_body]
pub struct ExClientBuilder(reqwest::ClientBuilder);

/// A client.
#[verifier::external_type_specification]
#[verifier::external_body]
pub struct ExClient(reqwest::Client);

/// What `reqwest::Certificate::from_pem_bundle` reads from a file: certificates, or the text of
/// its error.
pub uninterp spec fn pem_certificates(pem: Seq<u8>) -> Result<
    Seq<reqwest::Certificate>,
    Seq<char>,
>;

/// What `reqwest::Identity::from_pem` reads from a file: an identity, or the text of its error.
pub uninterp spec fn pem_identity(pem: Seq<u8>) -> Result<reqwest::Identity, Seq<char>>;

/// What a `reqwest::ClientBuilder` has been told of transport security.
pub uninterp spec fn client_settings(builder: reqwest::ClientBuilder) -> ClientSettings;

/// What the builder of a `reqwest::Client` had been told of transport security.
pub uninterp spec fn built_with(client: reqwest::Client) -> ClientSettings;

/// What a client does about transport security: the root certificates that it trusts besides
/// those of the system, the identity that it presents, and whether any certificate of the server
/// will do.
#[verifier::ext_equal]
pub struct ClientSettings {
    pub roots: Seq<reqwest::Certificate>,
    pub identity: Option<reqwest::Identity>,
    pub accepts_invalid: bool,
}

/// What came of reading the files that a profile names: their bytes, or why a file could not be
/// read. Where the profile does not call for a file, what stands here for it is not looked at.
#[derive(Debug)]
pub struct PemFiles {
    pub root: Result<Vec<u8>, String>,
    pub client_cert: Result<Vec<u8>, String>,
    pub client_key: Result<Vec<u8>, String>,
}

/// Transport security, as a profile asks for it.
///
/// Paths, never key material: options are kept in the clear, so a profile carries a path, and the
/// file is read when the connection is made.
#[derive(Debug, Clone, PartialEq, Eq)]
pub struct TlsConfig {
    pub root_cert_path: Option<String>,
    pub client_cert_path: Option<String>,
    pub client_key_path: Option<String>,
    pub accept_invalid_certs: bool,
}

/// Whether a text is one of those that switch an option on.
pub open spec fn switches_on(text: Seq<char>) -> bool {
    trimmed(text) == "1"@ || trimmed(text) == "true"@ || trimmed(text) == "yes"@
}

impl Default for TlsConfig {
    /// The transport security of a profile that asks for none.
    fn default() -> (r: TlsConfig)
        ensures
            r.is_plain(),
    {
        TlsConfig {
            root_cert_path: None,
            client_cert_path: None,
            client_key_path: None,
            accept_invalid_certs: false,
        }
    }
}

impl TlsConfig {
    /// Nothing is asked for.
    pub open spec fn is_plain(self) -> bool {
        &&& self.root_cert_path is None
        &&& self.client_cert_path is None
        &&& self.client_key_path is None
        &&& !self.accept_invalid_certs
    }

    /// This is what the options ask for.
    pub open spec fn asked_for(self, options: RequestOptions) -> bool {
        &&& self.root_cert_path == options.root_cert
        &&& self.client_cert_path == options.client_cert
        &&& self.client_key_path == options.client_key
        &&& self.accept_invalid_certs == (options.insecure matches Some(text) && switches_on(
            text@,
        ))
    }

    /// The transport security that the options of a request ask for.
    pub fn from_request(options: &RequestOptions) -> (r: TlsConfig)
        ensures
            r.asked_for(*options),
    {
        let accept_invalid_certs = match &options.insecure {
            Some(text) => {
                let value = trim(text.as_str());
                same_text(value, "1") || same_text(value, "true") || same_text(value, "yes")
            },
            None => false,
        };
        TlsConfig {
            root_cert_path: copy_option(&options.root_cert),
            client_cert_path: copy_option(&options.client_cert),
            client_key_path: copy_option(&options.client_key),
            accept_invalid_certs,
        }
    }
}

/// How every section of a PEM file starts.
pub open spec fn pem_begin() -> Seq<u8> {
    seq![45u8, 45u8, 45u8, 45u8, 45u8, 66u8, 69u8, 71u8, 73u8, 78u8, 32u8]
}

/// A file was read, and nothing was found in it.
pub open spec fn reads_nothing(read: Result<Seq<reqwest::Certificate>, Seq<char>>) -> bool {
    read matches Ok(certificates) && certificates.len() == 0
}

/// What is said of a file that could not be read.
pub open spec fn unreadable(label: Seq<char>, path: Seq<char>, why: Seq<char>) -> Seq<char> {
    label + " at "@ + path + " could not be read: "@ + why
}

/// What is said of a file with root certificates in which none was found.
pub open spec fn no_certificate(path: Seq<char>) -> Seq<char> {
    "SSL root certificate at "@ + path + " contains no PEM certificate."@
}

/// The root certificates to trust, out of what a file was read as.
pub open spec fn accepted_roots(
    path: Seq<char>,
    read: Result<Seq<reqwest::Certificate>, Seq<char>>,
) -> Result<Seq<reqwest::Certificate>, Seq<char>> {
    match read {
        Err(why) => Err(
            "SSL root certificate at "@ + path + " is not valid PEM: "@ + why,
        ),
        Ok(certificates) => if certificates.len() == 0 {
            Err(no_certificate(path))
        } else {
            Ok(certificates)
        },
    }
}

/// The identity to present, out of what the files were read as.
pub open spec fn accepted_identity(
    read: Result<reqwest::Identity, Seq<char>>,
) -> Result<Option<reqwest::Identity>, Seq<char>> {
    match read {
        Err(why) => Err("SSL client identity is not usable: "@ + why),
        Ok(identity) => Ok(Some(identity)),
    }
}

/// One file that holds the certificate and the key: a line break stands between the two.
pub open spec fn joined(certificate: Seq<u8>, key: Seq<u8>) -> Seq<u8> {
    if certificate.len() > 0 && certificate.last() == 10u8 {
        certificate + key
    } else {
        certificate.push(10u8) + key
    }
}

impl TlsConfig {
    /// The root certificates to trust, or why there is no saying.
    pub open spec fn roots(self, root: Result<Vec<u8>, String>) -> Result<
        Seq<reqwest::Certificate>,
        Seq<char>,
    > {
        match self.root_cert_path {
            None => Ok(Seq::empty()),
            Some(path) => match root {
                Err(why) => Err(unreadable("SSL root certificate"@, path@, why@)),
                Ok(pem) => accepted_roots(path@, pem_certificates(pem@)),
            },
        }
    }

    /// The identity to present, or why there is no saying.
    pub open spec fn identity(
        self,
        client_cert: Result<Vec<u8>, String>,
        client_key: Result<Vec<u8>, String>,
    ) -> Result<Option<reqwest::Identity>, Seq<char>> {
        match (self.client_cert_path, self.client_key_path) {
            (None, None) => Ok(None),
            (Some(_), None) => Err("SSL client certificate needs a matching client key."@),
            (None, Some(_)) => Err("SSL client key needs a matching client certificate."@),
            (Some(cert_path), Some(key_path)) => match (client_cert, client_key) {
                (Err(why), _) => Err(unreadable("SSL client certificate"@, cert_path@, why@)),
                (Ok(_), Err(why)) => Err(unreadable("SSL client key"@, key_path@, why@)),
                (Ok(certificate), Ok(key)) => accepted_identity(
                    pem_identity(joined(certificate@, key@)),
                ),
            },
        }
    }

    /// What a client is to be told, or why there is to be none.
    pub open spec fn settings(self, files: PemFiles) -> Result<ClientSettings, Seq<char>> {
        match (self.roots(files.root), self.identity(files.client_cert, files.client_key)) {
            (Err(why), _) => Err(why),
            (Ok(_), Err(why)) => Err(why),
            (Ok(roots), Ok(identity)) => Ok(
                ClientSettings { roots, identity, accepts_invalid: self.accept_invalid_certs },
            ),
        }
    }

    /// What is said where no client can be set up, for the reason given.
    pub open spec fn setup_failure(self, why: Seq<char>) -> Seq<char> {
        if self.is_plain() {
            "HTTP client setup failed: "@ + why
        } else {
            "TLS client setup failed: "@ + why
        }
    }

    /// The client to use, out of what came of building one.
    pub open spec fn accepted_client(
        self,
        built: Result<reqwest::Client, Seq<char>>,
    ) -> Result<reqwest::Client, Seq<char>> {
        match built {
            Err(why) => Err(self.setup_failure(why)),
            Ok(client) => Ok(client),
        }
    }

    /// The file of root certificates was read, and no PEM section starts in it.
    pub open spec fn root_file_is_no_pem(self, root: Result<Vec<u8>, String>) -> bool {
        &&& self.root_cert_path is Some
        &&& root matches Ok(pem) && !occurs(pem@, pem_begin())
    }
}

/// `reqwest::Certificate::from_pem_bundle`: what it reads is a function of the bytes, and where no
/// PEM section starts in them it reads no certificate.
#[verifier::external_body]
fn certificates_from_pem(pem: &Vec<u8>) -> (r: Result<Vec<reqwest::Certificate>, String>)
    ensures
        list_of(r) == pem_certificates(pem@),
        !occurs(pem@, pem_begin()) ==> reads_nothing(list_of(r)),
{
    reqwest::Certificate::from_pem_bundle(pem).map_err(|err| err.to_string())
}

/// `reqwest::Identity::from_pem`: what it reads is a function of the bytes.
#[verifier::external_body]
fn identity_from_pem(pem: &Vec<u8>) -> (r: Result<reqwest::Identity, String>)
    ensures
        outcome_of(r) == pem_identity(pem@),
{
    reqwest::Identity::from_pem(pem).map_err(|err| err.to_string())
}

/// `reqwest::Client::builder`: no root certificate besides those of the system, no identity, and
/// the certificate of the server is checked.
#[verifier::external_body]
fn new_builder() -> (r: reqwest::ClientBuilder)
    ensures
        client_settings(r) == (ClientSettings {
            roots: Seq::empty(),
            identity: None,
            accepts_invalid: false,
        }),
{
    reqwest::Client::builder()
}

/// `reqwest::ClientBuilder::add_root_certificate`: one more root certificate.
#[verifier::external_body]
fn add_root_certificate(
    builder: reqwest::ClientBuilder,
    certificate: reqwest::Certificate,
) -> (r: reqwest::ClientBuilder)
    ensures
        client_settings(r) == (ClientSettings {
            roots: client_settings(builder).roots.push(certificate),
            ..client_settings(builder)
        }),
{
    builder.add_root_certificate(certificate)
}

/// `reqwest::ClientBuilder::identity`: the identity to present, in place of any other.
#[verifier::external_body]
fn set_identity(
    builder: reqwest::ClientBuilder,
    identity: reqwest::Identity,
) -> (r: reqwest::ClientBuilder)
    ensures
        client_settings(r) == (ClientSettings {
            identity: Some(identity),
            ..client_settings(builder)
        }),
{
    builder.identity(identity)
}

/// `reqwest::ClientBuilder::danger_accept_invalid_certs`: whether any certificate of the server
/// will do.
#[verifier::external_body]
fn accept_invalid_certs(
    builder: reqwest::ClientBuilder,
    accept: bool,
) -> (r: reqwest::ClientBuilder)
    ensures
        client_settings(r) == (ClientSettings {
            accepts_invalid: accept,
            ..client_settings(builder)
        }),
{
    builder.danger_accept_invalid_certs(accept)
}

/// What `reqwest` says of every client that it cannot build.
pub open spec fn build_failure() -> Seq<char> {
    "builder error"@
}

/// `reqwest::ClientBuilder::build`: a client of what the builder has been told, or an error. Every
/// error of it is of the builder's kind and names no URL, so that its text is always the same.
/// Whether there is a client rests on the machine as well; nothing is claimed of that.
#[verifier::external_body]
fn build(builder: reqwest::ClientBuilder) -> (r: Result<reqwest::Client, String>)
    ensures
        r matches Ok(client) ==> built_with(client) == client_settings(builder),
        r matches Err(why) ==> why@ == build_failure(),
{
    builder.build().map_err(|err| err.to_string())
}

/// What is said of a file that could not be read.
fn read_failure(label: &str, path: &str, why: &str) -> (r: String)
    ensures
        r@ == unreadable(label@, path@, why@),
{
    label.to_owned().concat(" at ").concat(path).concat(" could not be read: ").concat(why)
}

/// The root certificates to trust, out of what a file was read as.
///
/// A file without a certificate is refused: to carry on would check the server against the roots
/// of the system, and not against those that were asked for.
pub fn accept_roots(path: &str, read: Result<Vec<reqwest::Certificate>, String>) -> (r: Result<
    Vec<reqwest::Certificate>,
    String,
>)
    ensures
        list_of(r) == accepted_roots(path@, list_of(read)),
{
    match read {
        Ok(certificates) => if certificates.len() == 0 {
            Err(
                "SSL root certificate at ".to_owned().concat(path).concat(
                    " contains no PEM certificate.",
                ),
            )
        } else {
            Ok(certificates)
        },
        Err(why) => Err(
            "SSL root certificate at ".to_owned().concat(path).concat(
                " is not valid PEM: ",
            ).concat(why.as_str()),
        ),
    }
}

/// The identity to present, out of what the files were read as.
pub fn accept_identity(read: Result<reqwest::Identity, String>) -> (r: Result<
    Option<reqwest::Identity>,
    String,
>)
    ensures
        outcome_of(r) == accepted_identity(outcome_of(read)),
{
    match read {
        Ok(identity) => Ok(Some(identity)),
        Err(why) => Err("SSL client identity is not usable: ".to_owned().concat(why.as_str())),
    }
}

/// One file that holds the certificate and the key: a line break stands between the two.
pub fn join_pem(certificate: Vec<u8>, key: Vec<u8>) -> (r: Vec<u8>)
    ensures
        r@ == joined(certificate@, key@),
{
    let mut pem = certificate;
    let mut key = key;
    let n = pem.len();
    if n == 0 || pem[n - 1] != 10u8 {
        pem.push(10u8);
    }
    pem.append(&mut key);
    pem
}

impl TlsConfig {
    /// Whether nothing is asked for.
    fn plain(&self) -> (r: bool)
        ensures
            r == self.is_plain(),
    {
        self.root_cert_path.is_none() && self.client_cert_path.is_none()
            && self.client_key_path.is_none() && !self.accept_invalid_certs
    }

    /// The files with the certificate to present and with its key, where both are asked for.
    pub fn identity_paths(&self) -> (r: Option<(&str, &str)>)
        ensures
            match (self.client_cert_path, self.client_key_path) {
                (Some(certificate), Some(key)) => r matches Some(paths) && paths.0@
                    == certificate@ && paths.1@ == key@,
                _ => r is None,
            },
    {
        match (&self.client_cert_path, &self.client_key_path) {
            (Some(certificate), Some(key)) => Some((certificate.as_str(), key.as_str())),
            _ => None,
        }
    }

    /// The root certificates to trust, or why there is no saying.
    fn read_roots(&self, root: Result<Vec<u8>, String>) -> (r: Result<
        Vec<reqwest::Certificate>,
        String,
    >)
        ensures
            list_of(r) == self.roots(root),
            self.root_file_is_no_pem(root) ==> (r matches Err(why) && why@ == no_certificate(
                self.root_cert_path->Some_0@,
            )),
    {
        match &self.root_cert_path {
            None => {
                let none: Vec<reqwest::Certificate> = Vec::new();
                assert(none@ =~= Seq::empty());
                Ok(none)
            },
            Some(path) => match root {
                Err(why) => Err(read_failure("SSL root certificate", path.as_str(), why.as_str())),
                Ok(pem) => accept_roots(path.as_str(), certificates_from_pem(&pem)),
            },
        }
    }

    /// The identity to present, or why there is no saying.
    fn read_identity(
        &self,
        client_cert: Result<Vec<u8>, String>,
        client_key: Result<Vec<u8>, String>,
    ) -> (r: Result<Option<reqwest::Identity>, String>)
        ensures
            outcome_of(r) == self.identity(client_cert, client_key),
    {
        match (&self.client_cert_path, &self.client_key_path) {
            (None, None) => Ok(None),
            (Some(_), None) => Err(
                "SSL client certificate needs a matching client key.".to_owned(),
            ),
            (None, Some(_)) => Err(
                "SSL client key needs a matching client certificate.".to_owned(),
            ),
            (Some(cert_path), Some(key_path)) => match (client_cert, client_key) {
                (Err(why), _) => Err(
                    read_failure("SSL client certificate", cert_path.as_str(), why.as_str()),
                ),
                (Ok(_), Err(why)) => Err(
                    read_failure("SSL client key", key_path.as_str(), why.as_str()),
                ),
                (Ok(certificate), Ok(key)) => accept_identity(
                    identity_from_pem(&join_pem(certificate, key)),
                ),
            },
        }
    }

    /// A builder that has been told what the profile asks for.
    pub fn client_builder(&self, files: PemFiles) -> (r: Result<reqwest::ClientBuilder, String>)
        ensures
            match r {
                Ok(builder) => self.settings(files) matches Ok(settings) && client_settings(builder)
                    == settings,
                Err(why) => self.settings(files) matches Err(message) && why@ == message,
            },
            self.root_file_is_no_pem(files.root) ==> (r matches Err(why) && why@ == no_certificate(
                self.root_cert_path->Some_0@,
            )),
    {
        let PemFiles { root, client_cert, client_key } = files;
        let roots = match self.read_roots(root) {
            Ok(roots) => roots,
            Err(why) => return Err(why),
        };
        let identity = match self.read_identity(client_cert, client_key) {
            Ok(identity) => identity,
            Err(why) => return Err(why),
        };
        let mut builder = new_builder();
        let ghost all = roots@;
        for certificate in it: roots
            invariant
                it.seq() == all,
                client_settings(builder) == (ClientSettings {
                    roots: all.take(it.index() as int),
                    identity: None,
                    accepts_invalid: false,
                }),
        {
            builder = add_root_certificate(builder, certificate);
            assert(all.take(it.index() as int).push(certificate) =~= all.take(it.index() + 1));
        }
        assert(all.take(all.len() as int) =~= all);
        if let Some(identity) = identity {
            builder = set_identity(builder, identity);
        }
        if self.accept_invalid_certs {
            builder = accept_invalid_certs(builder, true);
        }
        Ok(builder)
    }

    /// The client to use, out of what came of building one.
    pub fn accept_client(&self, built: Result<reqwest::Client, String>) -> (r: Result<
        reqwest::Client,
        String,
    >)
        ensures
            outcome_of(r) == self.accepted_client(outcome_of(built)),
    {
        match built {
            Ok(client) => Ok(client),
            Err(why) => if self.plain() {
                Err("HTTP client setup failed: ".to_owned().concat(why.as_str()))
            } else {
                Err("TLS client setup failed: ".to_owned().concat(why.as_str()))
            },
        }
    }

    /// A client that does what the profile asks for.
    ///
    /// Where nothing is asked for this is the client that anyone gets, so an endpoint without
    /// encryption is reached as ever.
    pub fn build_client(&self, files: PemFiles) -> (r: Result<reqwest::Client, String>)
        ensures
            match self.settings(files) {
                Ok(settings) => match r {
                    Ok(client) => built_with(client) == settings,
                    Err(why) => why@ == self.setup_failure(build_failure()),
                },
                Err(message) => r matches Err(why) && why@ == message,
            },
            self.root_file_is_no_pem(files.root) ==> (r matches Err(why) && why@ == no_certificate(
                self.root_cert_path->Some_0@,
            )),
    {
        if self.plain() {
            return self.accept_client(build(new_builder()));
        }
        match self.client_builder(files) {
            Ok(builder) => self.accept_client(build(builder)),
            Err(why) => Err(why),
        }
    }
}

/// A client presents an identity exactly where both halves of one are asked for, trusts further
/// roots exactly where a file of them is asked for, and lets any certificate pass exactly where
/// that is asked for. What is asked for is never left out.
pub proof fn law_settings_are_what_is_asked_for(config: TlsConfig, files: PemFiles)
    ensures
        config.settings(files) matches Ok(settings) ==> {
            &&& settings.identity is Some <==> config.client_cert_path is Some
            &&& settings.identity is Some <==> config.client_key_path is Some
            &&& settings.roots.len() > 0 <==> config.root_cert_path is Some
            &&& settings.accepts_invalid == config.accept_invalid_certs
        },
{
}

/// A profile that asks for nothing gets the client that anyone gets, whatever stands for the files.
pub proof fn law_plain_profile_keeps_the_plain_client(config: TlsConfig, files: PemFiles)
    requires
        config.is_plain(),
    ensures
        config.settings(files) matches Ok(settings) && settings == (ClientSettings {
            roots: Seq::empty(),
            identity: None,
            accepts_invalid: false,
        }),
{
}

/// Both halves of an identity are kept whole, and the key starts on a line of its own.
pub proof fn law_joined_halves_are_kept(certificate: Seq<u8>, key: Seq<u8>)
    ensures
        ({
            let pem = joined(certificate, key);
            let start = pem.len() - key.len();
            &&& certificate.is_prefix_of(pem)
            &&& 0 < start
            &&& pem.skip(start) == key
            &&& pem[start - 1] == 10u8
            &&& start <= certificate.len() + 1
        }),
{
    let pem = joined(certificate, key);
    assert(pem.skip(pem.len() - key.len()) =~= key);
}

/// Half an identity is refused, whatever the files hold, and told which half is missing, once the
/// root certificates are in order.
pub proof fn law_half_an_identity_is_refused(config: TlsConfig, files: PemFiles)
    requires
        config.roots(files.root) is Ok,
    ensures
        config.client_cert_path is Some && config.client_key_path is None
            ==> (config.settings(files) matches Err(why) && why
            == "SSL client certificate needs a matching client key."@),
        config.client_cert_path is None && config.client_key_path is Some
            ==> (config.settings(files) matches Err(why) && why
            == "SSL client key needs a matching client certificate."@),
{
}

/// A configuration is what the options ask for: each file is the one that is named for it, and any
/// certificate of the server will do exactly where the options say `1`, `true` or `yes`, in these
/// letters, with or without white space around them.
pub proof fn law_security_is_what_the_options_say(
    config: TlsConfig,
    options: RequestOptions,
    before: Seq<char>,
    said: Seq<char>,
    after: Seq<char>,
)
    requires
        config.asked_for(options),
        forall|i: int| 0 <= i < before.len() ==> is_white_space(#[trigger] before[i]),
        said.len() == 0 || !is_white_space(said[0]) && !is_white_space(said.last()),
        forall|i: int| 0 <= i < after.len() ==> is_white_space(#[trigger] after[i]),
    ensures
        config.root_cert_path == options.root_cert,
        config.client_cert_path == options.client_cert,
        config.client_key_path == options.client_key,
        options.insecure is None ==> !config.accept_invalid_certs,
        (options.insecure matches Some(text) && text@ == before + said + after) ==> (
        config.accept_invalid_certs <==> said == "1"@ || said == "true"@ || said == "yes"@),
{
    law_margins_are_taken_off(before, said, after);
}

/// The roots that a client is told of are all those that its file holds, and none besides; a file
/// that cannot be read, that is no PEM or that holds none is told with its path.
pub proof fn law_roots_are_those_of_the_file(config: TlsConfig, files: PemFiles)
    ensures
        config.root_cert_path is None ==> (config.settings(files) matches Ok(settings)
            ==> settings.roots.len() == 0),
        config.root_cert_path matches Some(path) ==> (match files.root {
            Err(why) => config.settings(files) == Err::<ClientSettings, Seq<char>>(
                "SSL root certificate"@ + " at "@ + path@ + " could not be read: "@ + why@,
            ),
            Ok(pem) => match pem_certificates(pem@) {
                Err(why) => config.settings(files) == Err::<ClientSettings, Seq<char>>(
                    "SSL root certificate at "@ + path@ + " is not valid PEM: "@ + why,
                ),
                Ok(certificates) => {
                    &&& certificates.len() == 0 ==> config.settings(files) == Err::<
                        ClientSettings,
                        Seq<char>,
                    >("SSL root certificate at "@ + path@ + " contains no PEM certificate."@)
                    &&& config.settings(files) matches Ok(settings) ==> settings.roots
                        == certificates
                },
            },
        }),
{
}

/// The identity that a client presents is the one that certificate and key make up, where both are
/// asked for; a file that cannot be read is told with its path, the certificate before the key, and
/// so is an identity that cannot be used. Without either there is none.
pub proof fn law_identity_is_that_of_the_files(config: TlsConfig, files: PemFiles)
    requires
        config.roots(files.root) is Ok,
    ensures
        config.client_cert_path is None && config.client_key_path is None ==> (config.settings(
            files,
        ) matches Ok(settings) && settings.identity is None),
        (config.client_cert_path matches Some(cert_path) && config.client_key_path matches Some(
            key_path,
        )) ==> ({
            let cert_path = config.client_cert_path->Some_0;
            let key_path = config.client_key_path->Some_0;
            match (files.client_cert, files.client_key) {
                (Err(why), _) => config.settings(files) == Err::<ClientSettings, Seq<char>>(
                    "SSL client certificate"@ + " at "@ + cert_path@ + " could not be read: "@
                        + why@,
                ),
                (Ok(_), Err(why)) => config.settings(files) == Err::<ClientSettings, Seq<char>>(
                    "SSL client key"@ + " at "@ + key_path@ + " could not be read: "@ + why@,
                ),
                (Ok(certificate), Ok(key)) => match pem_identity(joined(certificate@, key@)) {
                    Ok(identity) => config.settings(files) matches Ok(settings)
                        && settings.identity == Some(identity),
                    Err(why) => config.settings(files) == Err::<ClientSettings, Seq<char>>(
                        "SSL client identity is not usable: "@ + why,
                    ),
                },
            }
        }),
{
}

/// A client is had wherever the files are in order: each that is called for can be read, the roots
/// are certificates, and certificate and key make up an identity.
pub proof fn law_files_in_order_make_a_client(config: TlsConfig, files: PemFiles)
    requires
        config.root_cert_path is Some ==> (files.root matches Ok(pem) && pem_certificates(
            pem@,
        ) matches Ok(certificates) && certificates.len() > 0),
        config.client_cert_path is Some <==> config.client_key_path is Some,
        config.client_cert_path is Some ==> (files.client_cert matches Ok(certificate)
            && files.client_key matches Ok(key) && pem_identity(
            joined(certificate@, key@),
        ) is Ok),
    ensures
        config.settings(files) matches Ok(settings) && settings.accepts_invalid
            == config.accept_invalid_certs,
{
}

/// A certificate that ends with a line break is followed by its key at once, and any other by one
/// line break and then its key.
pub proof fn law_no_more_than_a_line_break_is_put_between(certificate: Seq<u8>, key: Seq<u8>)
    ensures
        joined(certificate.push(10u8), key) == certificate.push(10u8) + key,
        certificate.len() == 0 || certificate.last() != 10u8 ==> joined(certificate, key)
            == certificate + seq![10u8] + key,
{
    assert(certificate.push(10u8) =~= certificate + seq![10u8]);
}

/// Where no client can be built, that is told with the reason: of a plain client where nothing is
/// asked for, and of a secured one where anything is. A client that is built is the one to use.
pub proof fn law_a_failed_setup_is_told_with_the_reason(
    config: TlsConfig,
    built: Result<reqwest::Client, Seq<char>>,
)
    ensures
        built is Ok ==> config.accepted_client(built) == built,
        built matches Err(why) ==> config.accepted_client(built) == Err::<
            reqwest::Client,
            Seq<char>,
        >(
            if config.root_cert_path is None && config.client_cert_path is None
                && config.client_key_path is None && !config.accept_invalid_certs {
                "HTTP client setup failed: "@ + why
            } else {
                "TLS client setup failed: "@ + why
            },
        ),
{
}

} // verus!
