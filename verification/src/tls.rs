//! Certificates and private keys of the virtual hosts: reading them from PEM text
//! and collecting them for the TLS handshakes.
use crate::config::{RawVHost, VHostConfig};
use rustls::pki_types::{CertificateDer, PrivateKeyDer};
use rustls::server::ResolvesServerCertUsingSni;
use rustls::sign::CertifiedKey;
use vstd::prelude::*;

verus! {

broadcast use vstd::string::group_string_axioms;

/// The encoding of a private key.
#[derive(Debug, Clone, Copy, PartialEq, Eq, Structural)]
pub enum KeyKind {
    Pkcs1,
    Sec1,
    Pkcs8,
}

/// A private key in DER.
#[derive(Debug)]
pub struct PrivateKey {
    pub kind: KeyKind,
    pub der: Vec<u8>,
}

/// A certificate chain in DER with its private key.
#[derive(Debug)]
pub struct Identity {
    pub certs: Vec<Vec<u8>>,
    pub key: PrivateKey,
}

/// Why a domain gets no certificate.
#[derive(Debug)]
pub enum IdentityError {
    /// A file cannot be read, for this reason.
    Unreadable(String),
    /// The certificate text is not PEM, for this reason.
    BadCertificate(String),
    /// The key text is not PEM, for this reason.
    BadKey(String),
    /// The key text holds no private key.
    NoPrivateKey,
    /// The private key is of no supported type.
    InvalidKey,
    /// The certificate does not serve the domain, for this reason.
    Refused(String),
}

impl IdentityError {
    /// What is said of the error.
    pub open spec fn spec_message(self) -> Seq<char> {
        match self {
            IdentityError::Unreadable(reason) => reason@,
            IdentityError::BadCertificate(reason) => reason@,
            IdentityError::BadKey(reason) => reason@,
            IdentityError::NoPrivateKey => "No private key found"@,
            IdentityError::InvalidKey => "Invalid private key"@,
            IdentityError::Refused(reason) => reason@,
        }
    }

    /// What is said of the error.
    pub fn message(&self) -> (r: &str)
        ensures
            r@ == self.spec_message(),
    {
        match self {
            IdentityError::Unreadable(reason) => reason.as_str(),
            IdentityError::BadCertificate(reason) => reason.as_str(),
            IdentityError::BadKey(reason) => reason.as_str(),
            IdentityError::NoPrivateKey => "No private key found",
            IdentityError::InvalidKey => "Invalid private key",
            IdentityError::Refused(reason) => reason.as_str(),
        }
    }
}

/// The certificates of a PEM text in order, or why the text is malformed.
pub uninterp spec fn pem_certificates(pem: Seq<u8>) -> Result<Seq<Seq<u8>>, Seq<char>>;

/// The first private key of a PEM text, or why the text is malformed.
pub uninterp spec fn pem_private_key(pem: Seq<u8>) -> Result<
    Option<(KeyKind, Seq<u8>)>,
    Seq<char>,
>;

/// The bytes of a list of byte vectors.
pub open spec fn byte_views(items: Seq<Vec<u8>>) -> Seq<Seq<u8>> {
    items.map_values(|v: Vec<u8>| v@)
}

/// A private key as plain values.
pub open spec fn key_view(key: PrivateKey) -> (KeyKind, Seq<u8>) {
    (key.kind, key.der@)
}

/// A chain and its private key as plain values.
pub open spec fn identity_view(identity: Identity) -> (Seq<Seq<u8>>, (KeyKind, Seq<u8>)) {
    (byte_views(identity.certs@), key_view(identity.key))
}

/// What was read of certificates, as plain values.
pub open spec fn certs_view(r: Result<Vec<Vec<u8>>, String>) -> Result<Seq<Seq<u8>>, Seq<char>> {
    match r {
        Ok(certs) => Ok(byte_views(certs@)),
        Err(reason) => Err(reason@),
    }
}

/// What was read of a private key, as plain values.
pub open spec fn found_key_view(r: Result<Option<PrivateKey>, String>) -> Result<
    Option<(KeyKind, Seq<u8>)>,
    Seq<char>,
> {
    match r {
        Ok(Some(key)) => Ok(Some(key_view(key))),
        Ok(None) => Ok(None),
        Err(reason) => Err(reason@),
    }
}

/// `rustls_pemfile::certs` reads the certificate sections of a PEM text in order
/// and fails on the first malformed section. The result, with the text of the
/// error, is given a name.
#[verifier::external_body]
fn read_certificates(pem: &[u8]) -> (r: Result<Vec<Vec<u8>>, String>)
    ensures
        certs_view(r) == pem_certificates(pem@),
{
    rustls_pemfile::certs(&mut std::io::Cursor::new(pem))
        .map(|cert| cert.map(|der| der.to_vec()))
        .collect::<Result<Vec<Vec<u8>>, std::io::Error>>()
        .map_err(|error| error.to_string())
}

/// `rustls_pemfile::private_key` reads the first private key section of a PEM
/// text and fails on a malformed section before it. The result, with the text of
/// the error, is given a name.
#[verifier::external_body]
fn read_private_key(pem: &[u8]) -> (r: Result<Option<PrivateKey>, String>)
    ensures
        found_key_view(r) == pem_private_key(pem@),
{
    match rustls_pemfile::private_key(&mut std::io::Cursor::new(pem)) {
        Ok(Some(PrivateKeyDer::Pkcs1(key))) => Ok(
            Some(PrivateKey { kind: KeyKind::Pkcs1, der: key.secret_pkcs1_der().to_vec() }),
        ),
        Ok(Some(PrivateKeyDer::Sec1(key))) => Ok(
            Some(PrivateKey { kind: KeyKind::Sec1, der: key.secret_sec1_der().to_vec() }),
        ),
        Ok(Some(PrivateKeyDer::Pkcs8(key))) => Ok(
            Some(PrivateKey { kind: KeyKind::Pkcs8, der: key.secret_pkcs8_der().to_vec() }),
        ),
        Ok(_) => Ok(None),
        Err(error) => Err(error.to_string()),
    }
}

/// A `rustls::sign::CertifiedKey`: a chain with a key that can sign.
#[verifier::external_type_specification]
#[verifier::external_body]
pub struct ExCertifiedKey(rustls::sign::CertifiedKey);

/// The `rustls` table of certified keys by server name.
#[verifier::external_type_specification]
#[verifier::external_body]
pub struct ExResolver(rustls::server::ResolvesServerCertUsingSni);

/// The chain and the private key that a certified key was made of.
pub uninterp spec fn certified_view(certified: CertifiedKey) -> (
    Seq<Seq<u8>>,
    (KeyKind, Seq<u8>),
);

/// What a resolver serves: for each name in lower case, a chain and its key.
pub uninterp spec fn resolver_entries(resolver: ResolvesServerCertUsingSni) -> Map<
    Seq<char>,
    (Seq<Seq<u8>>, (KeyKind, Seq<u8>)),
>;

/// Why a resolver refuses to serve a name with a chain, if it does.
pub uninterp spec fn resolver_refusal(name: Seq<char>, chain: Seq<Seq<u8>>) -> Option<Seq<char>>;

/// Whether a certified key, where there is one, is made of an identity.
pub open spec fn certifies(certified: Option<CertifiedKey>, identity: Identity) -> bool {
    certified matches Some(key) ==> certified_view(key) == identity_view(identity)
}

/// The reason of a refusal, as a text.
pub open spec fn refusal_view(r: Result<(), String>) -> Option<Seq<char>> {
    match r {
        Ok(_) => None,
        Err(reason) => Some(reason@),
    }
}

/// `rustls::crypto::ring::sign::any_supported_type` makes a signing key of a
/// private key, and `CertifiedKey::new` joins it with the chain. Whether the key is
/// of a supported type is left open: the provider draws on the system's random
/// numbers to find out.
#[verifier::external_body]
fn certify(identity: &Identity) -> (r: Option<CertifiedKey>)
    ensures
        certifies(r, *identity),
{
    let chain = identity.certs.iter().map(|der| CertificateDer::from(der.clone())).collect();
    let der = identity.key.der.clone();
    let key = match identity.key.kind {
        KeyKind::Pkcs1 => PrivateKeyDer::Pkcs1(der.into()),
        KeyKind::Sec1 => PrivateKeyDer::Sec1(der.into()),
        KeyKind::Pkcs8 => PrivateKeyDer::Pkcs8(der.into()),
    };
    match rustls::crypto::ring::sign::any_supported_type(&key) {
        Ok(signer) => Some(CertifiedKey::new(chain, signer)),
        Err(_) => None,
    }
}

/// `ResolvesServerCertUsingSni::new` makes a resolver that serves nothing.
#[verifier::external_body]
fn new_resolver() -> (r: ResolvesServerCertUsingSni)
    ensures
        forall|name: Seq<char>| !#[trigger] resolver_entries(r).contains_key(name),
{
    ResolvesServerCertUsingSni::new()
}

/// `ResolvesServerCertUsingSni::add` checks that the name is a DNS name for which
/// the first certificate of the chain is valid, and then serves it under the name
/// in lower case, in place of what was served there. When it refuses, and with what
/// text, depends on name and chain alone and is given a name; the resolver then
/// stays as it was.
#[verifier::external_body]
fn add_certified(
    resolver: &mut ResolvesServerCertUsingSni,
    name: &str,
    certified: CertifiedKey,
) -> (r: Result<(), String>)
    ensures
        refusal_view(r) == resolver_refusal(name@, certified_view(certified).0),
        r is Ok ==> resolver_entries(*final(resolver)) == resolver_entries(*old(resolver)).insert(
            crate::text::ascii_lower(name@),
            certified_view(certified),
        ),
        r is Err ==> resolver_entries(*final(resolver)) == resolver_entries(*old(resolver)),
{
    resolver.add(name, certified).map_err(|error| error.to_string())
}

/// The protocols that a TLS handshake offers, the preferred first: `h2` and
/// `http/1.1`.
pub open spec fn offered_protocols() -> Seq<Seq<u8>> {
    seq![
        seq![0x68u8, 0x32u8],
        seq![0x68u8, 0x74u8, 0x74u8, 0x70u8, 0x2Fu8, 0x31u8, 0x2Eu8, 0x31u8],
    ]
}

/// The protocols that a TLS handshake offers, the preferred first.
pub fn alpn_protocols() -> (r: Vec<Vec<u8>>)
    ensures
        byte_views(r@) == offered_protocols(),
{
    let h2: Vec<u8> = vec![0x68, 0x32];
    let http: Vec<u8> = vec![0x68, 0x74, 0x74, 0x70, 0x2F, 0x31, 0x2E, 0x31];
    assert(h2@ == offered_protocols()[0]);
    assert(http@ == offered_protocols()[1]);
    let mut protocols: Vec<Vec<u8>> = Vec::new();
    protocols.push(h2);
    protocols.push(http);
    assert(byte_views(protocols@) == offered_protocols());
    protocols
}

/// Whether the texts of a certificate and a key are PEM with a private key.
pub open spec fn pem_sound(cert_pem: Seq<u8>, key_pem: Seq<u8>) -> bool {
    pem_certificates(cert_pem) is Ok && pem_private_key(key_pem) matches Ok(Some(_))
}

/// The chain and the private key that two PEM texts hold.
pub open spec fn pem_identity(cert_pem: Seq<u8>, key_pem: Seq<u8>) -> (
    Seq<Seq<u8>>,
    (KeyKind, Seq<u8>),
) {
    (pem_certificates(cert_pem)->Ok_0, pem_private_key(key_pem)->Ok_0->Some_0)
}

/// Whether an error says what is wrong with texts that were read: the certificates,
/// then the key text, then that it holds no key.
pub open spec fn read_fault(
    certs: Result<Seq<Seq<u8>>, Seq<char>>,
    key: Result<Option<(KeyKind, Seq<u8>)>, Seq<char>>,
    error: IdentityError,
) -> bool {
    match certs {
        Err(reason) => error matches IdentityError::BadCertificate(text) && text@ == reason,
        Ok(_) => match key {
            Err(reason) => error matches IdentityError::BadKey(text) && text@ == reason,
            Ok(None) => error == IdentityError::NoPrivateKey,
            Ok(Some(_)) => false,
        },
    }
}

/// The identity that was read, given what the texts held.
pub fn assemble_identity(
    certs: Result<Vec<Vec<u8>>, String>,
    key: Result<Option<PrivateKey>, String>,
) -> (r: Result<Identity, IdentityError>)
    ensures
        match r {
            Ok(identity) => certs == Ok::<_, String>(identity.certs) && key == Ok::<_, String>(
                Some(identity.key),
            ),
            Err(error) => read_fault(certs_view(certs), found_key_view(key), error),
        },
{
    match certs {
        Err(reason) => Err(IdentityError::BadCertificate(reason)),
        Ok(certs) => match key {
            Err(reason) => Err(IdentityError::BadKey(reason)),
            Ok(None) => Err(IdentityError::NoPrivateKey),
            Ok(Some(key)) => Ok(Identity { certs, key }),
        },
    }
}

/// Reads a certificate chain and its private key.
pub fn load_identity(cert_pem: &[u8], key_pem: &[u8]) -> (r: Result<Identity, IdentityError>)
    ensures
        match r {
            Ok(identity) => pem_sound(cert_pem@, key_pem@) && identity_view(identity)
                == pem_identity(cert_pem@, key_pem@),
            Err(error) => read_fault(
                pem_certificates(cert_pem@),
                pem_private_key(key_pem@),
                error,
            ),
        },
{
    let certs = read_certificates(cert_pem);
    let key = read_private_key(key_pem);
    assemble_identity(certs, key)
}

/// A domain and the files of its certificate and key.
#[derive(Debug)]
pub struct CertSource {
    pub domain: String,
    pub cert_path: String,
    pub key_path: String,
}

/// What is read for a virtual host.
pub open spec fn vhost_source(vhost: (String, VHostConfig)) -> CertSource {
    CertSource { domain: vhost.0, cert_path: vhost.1.cert_path, key_path: vhost.1.key_path }
}

/// What is read for an entry of a configuration file.
pub open spec fn entry_source(entry: RawVHost) -> CertSource {
    CertSource { domain: entry.domain, cert_path: entry.cert_path, key_path: entry.key_path }
}

/// The files of all virtual hosts, in their order.
pub fn cert_sources(vhosts: &Vec<(String, VHostConfig)>) -> (r: Vec<CertSource>)
    ensures
        r@ == vhosts@.map_values(|vhost: (String, VHostConfig)| vhost_source(vhost)),
{
    let mut sources: Vec<CertSource> = Vec::new();
    let mut i: usize = 0;
    while i < vhosts.len()
        invariant
            i <= vhosts@.len(),
            sources@ == vhosts@.take(i as int).map_values(
                |vhost: (String, VHostConfig)| vhost_source(vhost),
            ),
        decreases vhosts@.len() - i,
    {
        sources.push(
            CertSource {
                domain: vhosts[i].0.clone(),
                cert_path: vhosts[i].1.cert_path.clone(),
                key_path: vhosts[i].1.key_path.clone(),
            },
        );
        i += 1;
    }
    assert(vhosts@.take(i as int) == vhosts@);
    sources
}

/// The files of all entries of a configuration file, in their order.
pub fn entry_sources(entries: &Vec<RawVHost>) -> (r: Vec<CertSource>)
    ensures
        r@ == entries@.map_values(|entry: RawVHost| entry_source(entry)),
{
    let mut sources: Vec<CertSource> = Vec::new();
    let mut i: usize = 0;
    while i < entries.len()
        invariant
            i <= entries@.len(),
            sources@ == entries@.take(i as int).map_values(
                |entry: RawVHost| entry_source(entry),
            ),
        decreases entries@.len() - i,
    {
        sources.push(
            CertSource {
                domain: entries[i].domain.clone(),
                cert_path: entries[i].cert_path.clone(),
                key_path: entries[i].key_path.clone(),
            },
        );
        i += 1;
    }
    assert(entries@.take(i as int) == entries@);
    sources
}

/// A round of loading certificates that has come to one of its sources. What it
/// has collected serves no handshake before the round is complete.
pub struct CertLoader {
    sources: Vec<CertSource>,
    next: usize,
    resolver: ResolvesServerCertUsingSni,
}

/// What to do next in a round of loading certificates.
pub enum LoadStep {
    /// Read the two files and go on with what they hold.
    Read { loader: CertLoader, cert_path: String, key_path: String },
    /// Put this resolver in place of the one that was there.
    Install(ResolvesServerCertUsingSni),
    /// Give up, and leave what is in place.
    Abort(IdentityError),
}

/// The domains of sources, in lower case.
pub open spec fn domains(sources: Seq<CertSource>) -> Set<Seq<char>> {
    Set::new(|name: Seq<char>| exists|i: int| names(sources, i, name))
}

/// Whether a source is for a name in lower case.
pub open spec fn names(sources: Seq<CertSource>, i: int, name: Seq<char>) -> bool {
    0 <= i < sources.len() && crate::text::ascii_lower(sources[i].domain@) == name
}

/// Whether a step follows when the first `n` sources are collected as `served`:
/// reading the next source, or installing all.
pub open spec fn continues(
    step: LoadStep,
    sources: Seq<CertSource>,
    n: int,
    served: Map<Seq<char>, (Seq<Seq<u8>>, (KeyKind, Seq<u8>))>,
) -> bool {
    if n < sources.len() {
        step matches LoadStep::Read { loader, cert_path, key_path } && loader.spec_sources()
            == sources && loader.spec_next() == n && loader.spec_served() == served && cert_path
            == sources[n].cert_path && key_path == sources[n].key_path
    } else {
        step matches LoadStep::Install(resolver) && resolver_entries(resolver) == served
    }
}

/// Whether a step follows when a source yields a certified chain and key: it is
/// collected under the source's domain, unless the resolver refuses it for that.
pub open spec fn collects(
    step: LoadStep,
    loader: CertLoader,
    certified: (Seq<Seq<u8>>, (KeyKind, Seq<u8>)),
) -> bool {
    let domain = loader.spec_sources()[loader.spec_next()].domain@;
    match resolver_refusal(domain, certified.0) {
        Some(reason) => step matches LoadStep::Abort(IdentityError::Refused(text)) && text@
            == reason,
        None => continues(
            step,
            loader.spec_sources(),
            loader.spec_next() + 1,
            loader.spec_served().insert(crate::text::ascii_lower(domain), certified),
        ),
    }
}

/// Whether an installed resolver serves the domains of all sources and no other.
pub open spec fn installs_all(step: LoadStep, sources: Seq<CertSource>) -> bool {
    step matches LoadStep::Install(resolver) ==> resolver_entries(resolver).dom() == domains(
        sources,
    )
}

/// One more source adds its domain.
proof fn domains_grow(sources: Seq<CertSource>, n: int)
    requires
        0 <= n < sources.len(),
    ensures
        domains(sources.take(n + 1)) == domains(sources.take(n)).insert(
            crate::text::ascii_lower(sources[n].domain@),
        ),
{
    let fewer = sources.take(n);
    let more = sources.take(n + 1);
    assert forall|name: Seq<char>| #[trigger] domains(more).contains(name) <==> domains(
        fewer,
    ).insert(crate::text::ascii_lower(sources[n].domain@)).contains(name) by {
        if domains(more).contains(name) {
            let i = choose|i: int| names(more, i, name);
            if i < n {
                assert(names(fewer, i, name));
            }
        }
        if domains(fewer).contains(name) {
            let i = choose|i: int| names(fewer, i, name);
            assert(names(more, i, name));
        }
        if name == crate::text::ascii_lower(sources[n].domain@) {
            assert(names(more, n, name));
        }
    }
}

impl CertLoader {
    #[verifier::type_invariant]
    spec fn at_a_source(self) -> bool {
        &&& self.next < self.sources@.len()
        &&& resolver_entries(self.resolver).dom() == domains(self.sources@.take(self.next as int))
    }

    /// All sources of the round.
    pub closed spec fn spec_sources(self) -> Seq<CertSource> {
        self.sources@
    }

    /// The place of the source that is read next.
    pub closed spec fn spec_next(self) -> int {
        self.next as int
    }

    /// What is collected, by domain in lower case.
    pub closed spec fn spec_served(self) -> Map<
        Seq<char>,
        (Seq<Seq<u8>>, (KeyKind, Seq<u8>)),
    > {
        resolver_entries(self.resolver)
    }

    /// Begins a round.
    pub fn start(sources: Vec<CertSource>) -> (r: LoadStep)
        ensures
            continues(r, sources@, 0, Map::empty()),
            installs_all(r, sources@),
    {
        let resolver = new_resolver();
        assert(resolver_entries(resolver) == Map::<
            Seq<char>,
            (Seq<Seq<u8>>, (KeyKind, Seq<u8>)),
        >::empty());
        assert(resolver_entries(resolver).dom() == domains(sources@.take(0)));
        Self::next_step(sources, 0, resolver)
    }

    /// The step that follows when the first `next` sources are collected.
    fn next_step(
        sources: Vec<CertSource>,
        next: usize,
        resolver: ResolvesServerCertUsingSni,
    ) -> (r: LoadStep)
        requires
            next <= sources@.len(),
            resolver_entries(resolver).dom() == domains(sources@.take(next as int)),
        ensures
            continues(r, sources@, next as int, resolver_entries(resolver)),
            installs_all(r, sources@),
    {
        if next < sources.len() {
            let cert_path = sources[next].cert_path.clone();
            let key_path = sources[next].key_path.clone();
            LoadStep::Read { loader: CertLoader { sources, next, resolver }, cert_path, key_path }
        } else {
            assert(sources@.take(next as int) == sources@);
            LoadStep::Install(resolver)
        }
    }

    /// Gives up because a file cannot be read.
    pub fn unreadable(self, reason: String) -> (r: LoadStep)
        ensures
            r == LoadStep::Abort(IdentityError::Unreadable(reason)),
    {
        LoadStep::Abort(IdentityError::Unreadable(reason))
    }

    /// Goes on with a certified key, where the provider could make one. The first
    /// source that is refused ends the round, and nothing is installed.
    pub fn proceed(self, certified: Option<CertifiedKey>) -> (r: LoadStep)
        ensures
            0 <= self.spec_next() < self.spec_sources().len(),
            match certified {
                Some(key) => collects(r, self, certified_view(key)),
                None => r == LoadStep::Abort(IdentityError::InvalidKey),
            },
            installs_all(r, self.spec_sources()),
    {
        proof {
            use_type_invariant(&self);
        }
        match certified {
            None => LoadStep::Abort(IdentityError::InvalidKey),
            Some(key) => {
                let sources = self.sources;
                let next: usize = self.next;
                let count: usize = sources.len();
                assert(next < count);
                let mut resolver = self.resolver;
                match add_certified(&mut resolver, sources[next].domain.as_str(), key) {
                    Err(reason) => LoadStep::Abort(IdentityError::Refused(reason)),
                    Ok(()) => {
                        proof {
                            domains_grow(sources@, next as int);
                        }
                        Self::next_step(sources, next + 1, resolver)
                    },
                }
            },
        }
    }

    /// Goes on with what the two files of a source hold. Whether a well-formed key
    /// is of a supported type is for the cryptography provider to say.
    pub fn files_read(self, cert_pem: &[u8], key_pem: &[u8]) -> (r: LoadStep)
        ensures
            0 <= self.spec_next() < self.spec_sources().len(),
            if pem_sound(cert_pem@, key_pem@) {
                r == LoadStep::Abort(IdentityError::InvalidKey) || collects(
                    r,
                    self,
                    pem_identity(cert_pem@, key_pem@),
                )
            } else {
                r matches LoadStep::Abort(error) && read_fault(
                    pem_certificates(cert_pem@),
                    pem_private_key(key_pem@),
                    error,
                )
            },
            installs_all(r, self.spec_sources()),
    {
        proof {
            use_type_invariant(&self);
        }
        match load_identity(cert_pem, key_pem) {
            Ok(identity) => {
                let certified = certify(&identity);
                self.proceed(certified)
            },
            Err(error) => LoadStep::Abort(error),
        }
    }
}

/// What the first `n` sources yield together, each its own chain and key: a later
/// source takes the place of an earlier one for the same domain.
pub open spec fn served_after(
    sources: Seq<CertSource>,
    yields: Seq<(Seq<Seq<u8>>, (KeyKind, Seq<u8>))>,
    n: nat,
) -> Map<Seq<char>, (Seq<Seq<u8>>, (KeyKind, Seq<u8>))>
    decreases n,
{
    if n == 0 {
        Map::empty()
    } else {
        let k = n - 1;
        served_after(sources, yields, k as nat).insert(
            crate::text::ascii_lower(sources[k].domain@),
            yields[k],
        )
    }
}

/// A complete round serves every domain with what the last of its sources yields.
pub proof fn last_source_serves_its_domain(
    sources: Seq<CertSource>,
    yields: Seq<(Seq<Seq<u8>>, (KeyKind, Seq<u8>))>,
    i: int,
    n: nat,
)
    requires
        0 <= i < n <= sources.len(),
        forall|j: int|
            i < j < n ==> crate::text::ascii_lower((#[trigger] sources[j]).domain@)
                != crate::text::ascii_lower(sources[i].domain@),
    ensures
        served_after(sources, yields, n).contains_key(
            crate::text::ascii_lower(sources[i].domain@),
        ),
        served_after(sources, yields, n)[crate::text::ascii_lower(sources[i].domain@)]
            == yields[i],
    decreases n,
{
    if i < n - 1 {
        assert(crate::text::ascii_lower(sources[n - 1].domain@) != crate::text::ascii_lower(
            sources[i].domain@,
        ));
        last_source_serves_its_domain(sources, yields, i, (n - 1) as nat);
    }
}

/// Whether a step is the one of a round in which the first `n` sources have
/// yielded what is given.
pub open spec fn in_round(
    step: LoadStep,
    sources: Seq<CertSource>,
    yields: Seq<(Seq<Seq<u8>>, (KeyKind, Seq<u8>))>,
    n: nat,
) -> bool {
    continues(step, sources, n as int, served_after(sources, yields, n))
}

/// A round goes through its sources in order: a source that yields a chain and key
/// which the resolver accepts brings the round to the next one, and the round
/// installs what all sources yielded or, if one fails, nothing.
pub proof fn rounds_install_all_or_nothing(
    before: LoadStep,
    loader: CertLoader,
    after: LoadStep,
    sources: Seq<CertSource>,
    yields: Seq<(Seq<Seq<u8>>, (KeyKind, Seq<u8>))>,
    n: nat,
)
    requires
        n < sources.len(),
        in_round(before, sources, yields, n),
        before matches LoadStep::Read { loader: l, .. } && l == loader,
        collects(after, loader, yields[n as int]),
    ensures
        match resolver_refusal(sources[n as int].domain@, yields[n as int].0) {
            None => in_round(after, sources, yields, n + 1),
            Some(_) => after is Abort,
        },
{
}

/// Every error of a certificate is told in its own words, and a key that is missing or of
/// no supported type in words of their own.
pub proof fn errors_are_told(reason: String)
    ensures
        IdentityError::Unreadable(reason).spec_message() == reason@,
        IdentityError::BadCertificate(reason).spec_message() == reason@,
        IdentityError::BadKey(reason).spec_message() == reason@,
        IdentityError::Refused(reason).spec_message() == reason@,
        IdentityError::NoPrivateKey.spec_message() == "No private key found"@,
        IdentityError::InvalidKey.spec_message() == "Invalid private key"@,
{
}

/// Handshakes offer HTTP/2 first and HTTP/1.1 second.
pub proof fn http2_is_preferred()
    ensures
        crate::text::latin1(offered_protocols()[0]) == "h2"@,
        crate::text::latin1(offered_protocols()[1]) == "http/1.1"@,
        offered_protocols().len() == 2,
{
    reveal_strlit("h2");
    reveal_strlit("http/1.1");
    assert(crate::text::latin1(offered_protocols()[0]) == "h2"@);
    assert(crate::text::latin1(offered_protocols()[1]) == "http/1.1"@);
}

/// Every domain is read from the files that are named for it.
pub proof fn sources_name_their_files(vhost: (String, VHostConfig), entry: RawVHost)
    ensures
        vhost_source(vhost).domain == vhost.0,
        vhost_source(vhost).cert_path == vhost.1.cert_path,
        vhost_source(vhost).key_path == vhost.1.key_path,
        entry_source(entry).domain == entry.domain,
        entry_source(entry).cert_path == entry.cert_path,
        entry_source(entry).key_path == entry.key_path,
{
}

/// A fault of the certificates is told before one of the key, and texts without a fault
/// have none.
pub proof fn certificate_faults_come_first(
    certs: Result<Seq<Seq<u8>>, Seq<char>>,
    key: Result<Option<(KeyKind, Seq<u8>)>, Seq<char>>,
    error: IdentityError,
)
    requires
        read_fault(certs, key, error),
    ensures
        certs matches Err(reason) ==> error is BadCertificate && error.spec_message() == reason,
        certs is Ok ==> (key matches Err(reason) ==> error is BadKey && error.spec_message()
            == reason),
        certs is Ok && key is Ok ==> error is NoPrivateKey && key == Ok::<
            Option<(KeyKind, Seq<u8>)>,
            Seq<char>,
        >(None),
{
}

/// A complete round serves the domains of its sources, in lower case, and no other.
pub proof fn only_sources_are_served(
    sources: Seq<CertSource>,
    yields: Seq<(Seq<Seq<u8>>, (KeyKind, Seq<u8>))>,
    n: nat,
    name: Seq<char>,
)
    requires
        n <= sources.len(),
    ensures
        served_after(sources, yields, n).contains_key(name) <==> exists|i: int|
            0 <= i < n && crate::text::ascii_lower((#[trigger] sources[i]).domain@) == name,
    decreases n,
{
    if n > 0 {
        only_sources_are_served(sources, yields, (n - 1) as nat, name);
        let k = n - 1;
        if served_after(sources, yields, k as nat).contains_key(name) {
            let i = choose|i: int|
                0 <= i < k && crate::text::ascii_lower((#[trigger] sources[i]).domain@) == name;
            assert(crate::text::ascii_lower(sources[i].domain@) == name);
        }
        if crate::text::ascii_lower(sources[k].domain@) == name {
            assert(crate::text::ascii_lower(sources[k].domain@) == name);
        }
    }
}

/// A chain and its key are read if and only if both texts are sound, and are what the texts
/// hold.
pub proof fn identities_are_read(
    cert_pem: &[u8],
    key_pem: &[u8],
    r: Result<Identity, IdentityError>,
)
    requires
        call_ensures(load_identity, (cert_pem, key_pem), r),
    ensures
        r is Ok <==> pem_certificates(cert_pem@) is Ok && (pem_private_key(key_pem@) matches Ok(
            Some(_),
        )),
        r matches Ok(identity) ==> pem_certificates(cert_pem@) == Ok::<Seq<Seq<u8>>, Seq<char>>(
            byte_views(identity.certs@),
        ) && pem_private_key(key_pem@) == Ok::<Option<(KeyKind, Seq<u8>)>, Seq<char>>(
            Some((identity.key.kind, identity.key.der@)),
        ),
{
}

/// A round begins with the files of its first source, and without sources installs an empty
/// resolver at once; a file that cannot be read, and a key of no supported type, end it.
pub proof fn rounds_begin_with_the_first_source(
    sources: Vec<CertSource>,
    first: LoadStep,
    loader: CertLoader,
    reason: String,
    unread: LoadStep,
    unsupported: LoadStep,
)
    requires
        call_ensures(CertLoader::start, (sources,), first),
        call_ensures(CertLoader::unreadable, (loader, reason), unread),
        call_ensures(CertLoader::proceed, (loader, None), unsupported),
    ensures
        sources@.len() > 0 ==> (first matches LoadStep::Read { loader: l, cert_path, key_path }
            && cert_path == sources@[0].cert_path && key_path == sources@[0].key_path
            && l.spec_next() == 0 && l.spec_sources() == sources@),
        sources@.len() == 0 ==> (first matches LoadStep::Install(resolver) && forall|name: Seq<char>|
            !#[trigger] resolver_entries(resolver).contains_key(name)),
        unread == LoadStep::Abort(IdentityError::Unreadable(reason)),
        unsupported == LoadStep::Abort(IdentityError::InvalidKey),
{
}

/// A source whose files hold a chain and a key takes a round to the next source, with both
/// served under its domain, unless the resolver refuses them or the key is of no supported
/// type; files that do not hold them end the round.
pub proof fn sources_are_collected(
    loader: CertLoader,
    cert_pem: &[u8],
    key_pem: &[u8],
    r: LoadStep,
)
    requires
        call_ensures(CertLoader::files_read, (loader, cert_pem, key_pem), r),
    ensures
        0 <= loader.spec_next() < loader.spec_sources().len(),
        !pem_sound(cert_pem@, key_pem@) ==> r is Abort,
        r is Abort || collects(r, loader, pem_identity(cert_pem@, key_pem@)),
        r matches LoadStep::Read { loader: l, cert_path, key_path } ==> {
            let n = loader.spec_next() + 1;
            let domain = loader.spec_sources()[loader.spec_next()].domain@;
            &&& l.spec_sources() == loader.spec_sources()
            &&& l.spec_next() == n
            &&& cert_path == loader.spec_sources()[n].cert_path
            &&& key_path == loader.spec_sources()[n].key_path
            &&& l.spec_served().contains_key(crate::text::ascii_lower(domain))
            &&& l.spec_served()[crate::text::ascii_lower(domain)] == pem_identity(
                cert_pem@,
                key_pem@,
            )
        },
        r matches LoadStep::Install(resolver) ==> {
            let domain = loader.spec_sources()[loader.spec_next()].domain@;
            &&& loader.spec_next() + 1 == loader.spec_sources().len()
            &&& resolver_entries(resolver) == loader.spec_served().insert(
                crate::text::ascii_lower(domain),
                pem_identity(cert_pem@, key_pem@),
            )
        },
{
}

/// The files of every virtual host and of every entry are listed, in their order.
pub proof fn sources_are_listed(
    vhosts: Vec<(String, VHostConfig)>,
    of_hosts: Vec<CertSource>,
    entries: Vec<RawVHost>,
    of_entries: Vec<CertSource>,
    i: int,
)
    requires
        call_ensures(cert_sources, (&vhosts,), of_hosts),
        call_ensures(entry_sources, (&entries,), of_entries),
    ensures
        of_hosts@.len() == vhosts@.len(),
        of_entries@.len() == entries@.len(),
        0 <= i < vhosts@.len() ==> of_hosts@[i].domain == vhosts@[i].0 && of_hosts@[i].cert_path
            == vhosts@[i].1.cert_path && of_hosts@[i].key_path == vhosts@[i].1.key_path,
        0 <= i < entries@.len() ==> of_entries@[i].domain == entries@[i].domain
            && of_entries@[i].cert_path == entries@[i].cert_path && of_entries@[i].key_path
            == entries@[i].key_path,
{
}

/// What handshakes offer is HTTP/2 and HTTP/1.1.
pub proof fn handshakes_offer_two_protocols(r: Vec<Vec<u8>>)
    requires
        call_ensures(alpn_protocols, (), r),
    ensures
        r@.len() == 2,
        crate::text::latin1(r@[0]@) == "h2"@,
        crate::text::latin1(r@[1]@) == "http/1.1"@,
{
    http2_is_preferred();
    assert(byte_views(r@).len() == r@.len());
    assert(byte_views(r@)[0] == r@[0]@);
    assert(byte_views(r@)[1] == r@[1]@);
}

} // verus!
