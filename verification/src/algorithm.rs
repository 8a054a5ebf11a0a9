//! The algorithm registry: the names both sides may offer for key exchange,
//! host keys, encryption, MAC and compression, and the negotiation rule of
//! RFC 4253 section 7.1.

use vstd::prelude::*;
use vstd::string::StringSliceAdditionalSpecFns;

use crate::error::{ConnectionError, ConnectionResult};

verus! {

/// An algorithm identifier that appears under a wire name in a KEXINIT
/// name-list.
pub trait AlgorithmId: Sized + Copy {
    /// The wire name of this algorithm.
    spec fn spec_name(self) -> Seq<u8>;

    /// The algorithm a wire name denotes, if the name is known.
    spec fn spec_of_name(name: Seq<u8>) -> Option<Self>;

    /// The wire name of this algorithm.
    fn name(&self) -> (r: &'static str)
        ensures
            r.spec_bytes() == self.spec_name(),
    ;

    /// Look a wire name up; unknown names yield None.
    fn of_name(name: &[u8]) -> (r: Option<Self>)
        ensures
            r == Self::spec_of_name(name@),
    ;

    /// Whether two identifiers denote the same algorithm.
    fn same(&self, other: &Self) -> (r: bool)
        ensures
            r == (*self == *other),
    ;
}

/// Whether `list` holds `a`.
pub open spec fn contains_alg<A>(list: Seq<A>, a: A) -> bool {
    exists|i: int| 0 <= i < list.len() && list[i] == a
}

/// The negotiation rule: the first client name that the server also lists,
/// or nothing when the two lists share no name.
pub open spec fn spec_negotiate<A>(server: Seq<A>, client: Seq<A>) -> Option<A>
    decreases client.len(),
{
    if client.len() == 0 {
        None
    } else if contains_alg(server, client[0]) {
        Some(client[0])
    } else {
        spec_negotiate(server, client.drop_first())
    }
}

/// Find the best matching algorithm: scan the client's list in order and
/// take the first name the server also lists; fail with `NegotiationError`
/// when there is none.
pub fn negotiate<A: AlgorithmId>(server: &[A], client: &[A]) -> (r: ConnectionResult<A>)
    ensures
        match r {
            Ok(a) => spec_negotiate(server@, client@) == Some(a),
            Err(e) => spec_negotiate(server@, client@) is None
                && e == ConnectionError::NegotiationError,
        },
{
    let mut i: usize = 0;
    assert(client@.subrange(0, client@.len() as int) =~= client@);
    while i < client.len()
        invariant
            i <= client@.len(),
            spec_negotiate(server@, client@) == spec_negotiate(
                server@,
                client@.subrange(i as int, client@.len() as int),
            ),
        decreases client.len() - i,
    {
        let mut j: usize = 0;
        let ghost rest = client@.subrange(i as int, client@.len() as int);
        while j < server.len()
            invariant
                j <= server@.len(),
                i < client@.len(),
                rest == client@.subrange(i as int, client@.len() as int),
                spec_negotiate(server@, client@) == spec_negotiate(server@, rest),
                forall|k: int| 0 <= k < j ==> server@[k] != client@[i as int],
            decreases server.len() - j,
        {
            if server[j].same(&client[i]) {
                proof {
                    assert(rest.len() == client@.len() - i);
                    assert(rest[0] == client@[i as int]);
                    assert(server@[j as int] == client@[i as int]);
                    assert(contains_alg(server@, rest[0]));
                    assert(spec_negotiate(server@, rest) == Some(rest[0]));
                }
                return Ok(client[i]);
            }
            j = j + 1;
        }
        proof {
            assert(rest[0] == client@[i as int]);
            assert(!contains_alg(server@, rest[0]));
            assert(rest.drop_first() =~= client@.subrange(i + 1, client@.len() as int));
        }
        i = i + 1;
    }
    proof {
        assert(client@.subrange(client@.len() as int, client@.len() as int) =~= Seq::<A>::empty());
    }
    Err(ConnectionError::NegotiationError)
}

/// Negotiation succeeds exactly on the first client entry that the server
/// lists, and fails exactly when the two lists share no entry.
pub proof fn lemma_negotiate_first_match<A>(server: Seq<A>, client: Seq<A>)
    ensures
        match spec_negotiate(server, client) {
            Some(a) => exists|i: int|
                0 <= i < client.len() && client[i] == a && contains_alg(server, a) && (forall|
                    j: int,
                |
                    0 <= j < i ==> !contains_alg(server, #[trigger] client[j])),
            None => forall|i: int| 0 <= i < client.len() ==> !contains_alg(
                server,
                #[trigger] client[i],
            ),
        },
    decreases client.len(),
{
    if client.len() == 0 {
    } else if contains_alg(server, client[0]) {
        let a = client[0];
        assert(0 <= 0 < client.len() && client[0] == a && contains_alg(server, a) && (forall|
            j: int,
        |
            0 <= j < 0 ==> !contains_alg(server, #[trigger] client[j])));
    } else {
        let tail = client.drop_first();
        lemma_negotiate_first_match(server, tail);
        match spec_negotiate(server, tail) {
            Some(a) => {
                let i = choose|i: int|
                    0 <= i < tail.len() && tail[i] == a && contains_alg(server, a) && (forall|
                        j: int,
                    |
                        0 <= j < i ==> !contains_alg(server, #[trigger] tail[j]));
                assert(client[i + 1] == tail[i]);
                assert(forall|j: int|
                    0 <= j < i + 1 ==> #[trigger] client[j] == if j == 0 {
                        client[0]
                    } else {
                        tail[j - 1]
                    });
            },
            None => {
                assert(forall|i: int|
                    1 <= i < client.len() ==> #[trigger] client[i] == tail[i - 1]);
            },
        }
    }
}

/// The algorithms a list of wire names denotes, in order, with unknown
/// names silently dropped.
pub open spec fn algs_of_names<A: AlgorithmId>(names: Seq<Seq<u8>>) -> Seq<A>
    decreases names.len(),
{
    if names.len() == 0 {
        Seq::empty()
    } else {
        let rest = algs_of_names::<A>(names.drop_first());
        match A::spec_of_name(names[0]) {
            Some(a) => seq![a] + rest,
            None => rest,
        }
    }
}

/// Looking up one more name appends its algorithm, if the name is known.
pub proof fn lemma_algs_of_names_push<A: AlgorithmId>(names: Seq<Seq<u8>>, x: Seq<u8>)
    ensures
        algs_of_names::<A>(names.push(x)) == algs_of_names::<A>(names) + match A::spec_of_name(x) {
            Some(a) => seq![a],
            None => Seq::<A>::empty(),
        },
    decreases names.len(),
{
    let p = names.push(x);
    if names.len() == 0 {
        assert(p[0] == x);
        assert(p.drop_first() =~= Seq::<Seq<u8>>::empty());
        match A::spec_of_name(x) {
            Some(a) => {
                assert(algs_of_names::<A>(p) =~= algs_of_names::<A>(names) + seq![a]);
            },
            None => {
                assert(algs_of_names::<A>(p) =~= algs_of_names::<A>(names));
            },
        }
    } else {
        assert(p[0] == names[0]);
        assert(p.drop_first() =~= names.drop_first().push(x));
        lemma_algs_of_names_push::<A>(names.drop_first(), x);
        let tail_p = algs_of_names::<A>(p.drop_first());
        let tail_n = algs_of_names::<A>(names.drop_first());
        match A::spec_of_name(names[0]) {
            Some(a0) => {
                assert(algs_of_names::<A>(p) == seq![a0] + tail_p);
                assert(algs_of_names::<A>(names) == seq![a0] + tail_n);
            },
            None => {
                assert(algs_of_names::<A>(p) == tail_p);
                assert(algs_of_names::<A>(names) == tail_n);
            },
        }
        match A::spec_of_name(x) {
            Some(a) => {
                assert(algs_of_names::<A>(p) =~= algs_of_names::<A>(names) + seq![a]);
            },
            None => {
                assert(algs_of_names::<A>(p) =~= algs_of_names::<A>(names));
            },
        }
    }
}

/// The deep view of a vector of byte vectors is the sequence of their views.
pub proof fn lemma_deep_view_bytes(v: &Vec<Vec<u8>>)
    ensures
        v.deep_view().len() == v@.len(),
        forall|k: int| 0 <= k < v@.len() ==> v.deep_view()[k] == v@[k]@,
{
    assert forall|k: int| 0 <= k < v@.len() implies v.deep_view()[k] == v@[k]@ by {
        assert(v@[k].deep_view() =~= v@[k]@);
    }
}

/// Parse a list of wire names against the registry, dropping unknown names.
pub fn parse_algorithm_list<A: AlgorithmId>(names: &Vec<Vec<u8>>) -> (r: Vec<A>)
    ensures
        r@ == algs_of_names::<A>(names.deep_view()),
{
    let ghost dv = names.deep_view();
    let mut r: Vec<A> = Vec::new();
    let mut i: usize = 0;
    assert(dv.take(0) =~= Seq::<Seq<u8>>::empty());
    while i < names.len()
        invariant
            i <= names.len(),
            dv == names.deep_view(),
            r@ == algs_of_names::<A>(dv.take(i as int)),
        decreases names.len() - i,
    {
        proof {
            assert(dv.take(i + 1) =~= dv.take(i as int).push(dv[i as int]));
            assert(dv[i as int] == names@[i as int]@);
            lemma_algs_of_names_push::<A>(dv.take(i as int), dv[i as int]);
        }
        match A::of_name(names[i].as_slice()) {
            Some(a) => {
                r.push(a);
            },
            None => {},
        }
        i = i + 1;
    }
    assert(dv.take(names@.len() as int) =~= dv);
    r
}

/// The wire names of a list of algorithms, in order.
pub open spec fn names_of_algs<A: AlgorithmId>(algos: Seq<A>) -> Seq<Seq<u8>> {
    algos.map_values(|a: A| a.spec_name())
}

/// The wire names of a list of algorithms, in order.
pub fn algorithm_names<A: AlgorithmId>(algos: &[A]) -> (r: Vec<Vec<u8>>)
    ensures
        r.deep_view() == names_of_algs(algos@),
{
    let mut r: Vec<Vec<u8>> = Vec::new();
    let mut i: usize = 0;
    while i < algos.len()
        invariant
            i <= algos@.len(),
            r@.len() == i,
            forall|k: int| 0 <= k < i ==> r@[k]@ == algos@[k].spec_name(),
        decreases algos.len() - i,
    {
        let name = algos[i].name();
        let bytes = name.as_bytes();
        let mut v: Vec<u8> = Vec::new();
        let mut k: usize = 0;
        while k < bytes.len()
            invariant
                k <= bytes@.len(),
                v@ == bytes@.subrange(0, k as int),
            decreases bytes.len() - k,
        {
            v.push(bytes[k]);
            assert(v@ =~= bytes@.subrange(0, k + 1 as int));
            k = k + 1;
        }
        assert(bytes@.subrange(0, bytes@.len() as int) =~= bytes@);
        r.push(v);
        i = i + 1;
    }
    proof {
        lemma_deep_view_bytes(&r);
        assert(r.deep_view() =~= names_of_algs(algos@));
    }
    r
}

/// The byte lengths of the registry's own wire names.
pub proof fn lemma_registry_name_lens()
    ensures
        "curve25519-sha256".spec_bytes().len() == 17,
        "ssh-ed25519".spec_bytes().len() == 11,
        "aes256-ctr".spec_bytes().len() == 10,
        "hmac-sha2-256".spec_bytes().len() == 13,
        "none".spec_bytes().len() == 4,
{
    reveal_strlit("curve25519-sha256");
    assert(vstd::utf8::is_ascii_chars("curve25519-sha256"@));
    vstd::utf8::is_ascii_chars_encode_utf8("curve25519-sha256"@);
    reveal_strlit("ssh-ed25519");
    assert(vstd::utf8::is_ascii_chars("ssh-ed25519"@));
    vstd::utf8::is_ascii_chars_encode_utf8("ssh-ed25519"@);
    reveal_strlit("aes256-ctr");
    assert(vstd::utf8::is_ascii_chars("aes256-ctr"@));
    vstd::utf8::is_ascii_chars_encode_utf8("aes256-ctr"@);
    reveal_strlit("hmac-sha2-256");
    assert(vstd::utf8::is_ascii_chars("hmac-sha2-256"@));
    vstd::utf8::is_ascii_chars_encode_utf8("hmac-sha2-256"@);
    reveal_strlit("none");
    assert(vstd::utf8::is_ascii_chars("none"@));
    vstd::utf8::is_ascii_chars_encode_utf8("none"@);
}

/// Read a name-list at `pos` and parse it against the registry, dropping
/// unknown names.
pub fn read_enum_list<A: AlgorithmId>(data: &[u8], pos: usize) -> (r: Option<(Vec<A>, usize)>)
    ensures
        match r {
            Some(p) => crate::codec::dec_name_list(data@, pos as int) matches Some((names, end))
                && p.0@ == algs_of_names::<A>(names) && p.1 == end,
            None => crate::codec::dec_name_list(data@, pos as int) is None,
        },
{
    match crate::codec::read_name_list(data, pos) {
        Some((names, end)) => Some((parse_algorithm_list::<A>(&names), end)),
        None => None,
    }
}

// ---------------------------------------------------------------------------
// Key exchange
// ---------------------------------------------------------------------------

/// A key-exchange algorithm name a client may offer.
#[derive(Clone, Copy, PartialEq, Eq, Structural, Debug)]
#[allow(non_camel_case_types)]
pub enum KeyExchangeAlgorithm {
    CURVE25519_SHA256,
    ECDH_SHA2_NISTP256,
    ECDH_SHA2_NISTP384,
    ECDH_SHA2_NISTP521,
    DH_GROUP_EXCHANGE_SHA256,
    DH_GROUP_EXCHANGE_SHA1,
    DH_GROUP16_SHA512,
    DH_GROUP18_SHA512,
    DH_GROUP14_SHA256,
    DH_GROUP14_SHA1,
    EXT_INFO_C,
}

impl AlgorithmId for KeyExchangeAlgorithm {
    open spec fn spec_name(self) -> Seq<u8> {
        match self {
            KeyExchangeAlgorithm::CURVE25519_SHA256 => "curve25519-sha256".spec_bytes(),
            KeyExchangeAlgorithm::ECDH_SHA2_NISTP256 => "ecdh-sha2-nistp256".spec_bytes(),
            KeyExchangeAlgorithm::ECDH_SHA2_NISTP384 => "ecdh-sha2-nistp384".spec_bytes(),
            KeyExchangeAlgorithm::ECDH_SHA2_NISTP521 => "ecdh-sha2-nistp521".spec_bytes(),
            KeyExchangeAlgorithm::DH_GROUP_EXCHANGE_SHA256 => "diffie-hellman-group-exchange-sha256".spec_bytes(),
            KeyExchangeAlgorithm::DH_GROUP_EXCHANGE_SHA1 => "diffie-hellman-group-exchange-sha1".spec_bytes(),
            KeyExchangeAlgorithm::DH_GROUP16_SHA512 => "diffie-hellman-group16-sha512".spec_bytes(),
            KeyExchangeAlgorithm::DH_GROUP18_SHA512 => "diffie-hellman-group18-sha512".spec_bytes(),
            KeyExchangeAlgorithm::DH_GROUP14_SHA256 => "diffie-hellman-group14-sha256".spec_bytes(),
            KeyExchangeAlgorithm::DH_GROUP14_SHA1 => "diffie-hellman-group14-sha1".spec_bytes(),
            KeyExchangeAlgorithm::EXT_INFO_C => "ext-info-c".spec_bytes(),
        }
    }

    open spec fn spec_of_name(name: Seq<u8>) -> Option<KeyExchangeAlgorithm> {
        if name == "curve25519-sha256".spec_bytes() {
            Some(KeyExchangeAlgorithm::CURVE25519_SHA256)
        } else if name == "ecdh-sha2-nistp256".spec_bytes() {
            Some(KeyExchangeAlgorithm::ECDH_SHA2_NISTP256)
        } else if name == "ecdh-sha2-nistp384".spec_bytes() {
            Some(KeyExchangeAlgorithm::ECDH_SHA2_NISTP384)
        } else if name == "ecdh-sha2-nistp521".spec_bytes() {
            Some(KeyExchangeAlgorithm::ECDH_SHA2_NISTP521)
        } else if name == "diffie-hellman-group-exchange-sha256".spec_bytes() {
            Some(KeyExchangeAlgorithm::DH_GROUP_EXCHANGE_SHA256)
        } else if name == "diffie-hellman-group-exchange-sha1".spec_bytes() {
            Some(KeyExchangeAlgorithm::DH_GROUP_EXCHANGE_SHA1)
        } else if name == "diffie-hellman-group16-sha512".spec_bytes() {
            Some(KeyExchangeAlgorithm::DH_GROUP16_SHA512)
        } else if name == "diffie-hellman-group18-sha512".spec_bytes() {
            Some(KeyExchangeAlgorithm::DH_GROUP18_SHA512)
        } else if name == "diffie-hellman-group14-sha256".spec_bytes() {
            Some(KeyExchangeAlgorithm::DH_GROUP14_SHA256)
        } else if name == "diffie-hellman-group14-sha1".spec_bytes() {
            Some(KeyExchangeAlgorithm::DH_GROUP14_SHA1)
        } else if name == "ext-info-c".spec_bytes() {
            Some(KeyExchangeAlgorithm::EXT_INFO_C)
        } else {
            None
        }
    }

    fn name(&self) -> (r: &'static str) {
        match self {
            KeyExchangeAlgorithm::CURVE25519_SHA256 => "curve25519-sha256",
            KeyExchangeAlgorithm::ECDH_SHA2_NISTP256 => "ecdh-sha2-nistp256",
            KeyExchangeAlgorithm::ECDH_SHA2_NISTP384 => "ecdh-sha2-nistp384",
            KeyExchangeAlgorithm::ECDH_SHA2_NISTP521 => "ecdh-sha2-nistp521",
            KeyExchangeAlgorithm::DH_GROUP_EXCHANGE_SHA256 => "diffie-hellman-group-exchange-sha256",
            KeyExchangeAlgorithm::DH_GROUP_EXCHANGE_SHA1 => "diffie-hellman-group-exchange-sha1",
            KeyExchangeAlgorithm::DH_GROUP16_SHA512 => "diffie-hellman-group16-sha512",
            KeyExchangeAlgorithm::DH_GROUP18_SHA512 => "diffie-hellman-group18-sha512",
            KeyExchangeAlgorithm::DH_GROUP14_SHA256 => "diffie-hellman-group14-sha256",
            KeyExchangeAlgorithm::DH_GROUP14_SHA1 => "diffie-hellman-group14-sha1",
            KeyExchangeAlgorithm::EXT_INFO_C => "ext-info-c",
        }
    }

    fn of_name(name: &[u8]) -> (r: Option<KeyExchangeAlgorithm>) {
        if crate::codec::eq_bytes(name, "curve25519-sha256".as_bytes()) {
            Some(KeyExchangeAlgorithm::CURVE25519_SHA256)
        } else if crate::codec::eq_bytes(name, "ecdh-sha2-nistp256".as_bytes()) {
            Some(KeyExchangeAlgorithm::ECDH_SHA2_NISTP256)
        } else if crate::codec::eq_bytes(name, "ecdh-sha2-nistp384".as_bytes()) {
            Some(KeyExchangeAlgorithm::ECDH_SHA2_NISTP384)
        } else if crate::codec::eq_bytes(name, "ecdh-sha2-nistp521".as_bytes()) {
            Some(KeyExchangeAlgorithm::ECDH_SHA2_NISTP521)
        } else if crate::codec::eq_bytes(name, "diffie-hellman-group-exchange-sha256".as_bytes()) {
            Some(KeyExchangeAlgorithm::DH_GROUP_EXCHANGE_SHA256)
        } else if crate::codec::eq_bytes(name, "diffie-hellman-group-exchange-sha1".as_bytes()) {
            Some(KeyExchangeAlgorithm::DH_GROUP_EXCHANGE_SHA1)
        } else if crate::codec::eq_bytes(name, "diffie-hellman-group16-sha512".as_bytes()) {
            Some(KeyExchangeAlgorithm::DH_GROUP16_SHA512)
        } else if crate::codec::eq_bytes(name, "diffie-hellman-group18-sha512".as_bytes()) {
            Some(KeyExchangeAlgorithm::DH_GROUP18_SHA512)
        } else if crate::codec::eq_bytes(name, "diffie-hellman-group14-sha256".as_bytes()) {
            Some(KeyExchangeAlgorithm::DH_GROUP14_SHA256)
        } else if crate::codec::eq_bytes(name, "diffie-hellman-group14-sha1".as_bytes()) {
            Some(KeyExchangeAlgorithm::DH_GROUP14_SHA1)
        } else if crate::codec::eq_bytes(name, "ext-info-c".as_bytes()) {
            Some(KeyExchangeAlgorithm::EXT_INFO_C)
        } else {
            None
        }
    }

    fn same(&self, other: &Self) -> (r: bool) {
        *self == *other
    }
}

// ---------------------------------------------------------------------------
// Host keys
// ---------------------------------------------------------------------------

/// A public-key (host-key) algorithm name a client may offer.
#[derive(Clone, Copy, PartialEq, Eq, Structural, Debug)]
#[allow(non_camel_case_types)]
pub enum PublicKeyAlgorithm {
    SSH_RSA,
    RSA_SHA2_256,
    RSA_SHA2_512,
    ECDSA_SHA2_NISTP256,
    ECDSA_SHA2_NISTP384,
    ECDSA_SHA2_NISTP521,
    SSH_ED25519,
}

impl AlgorithmId for PublicKeyAlgorithm {
    open spec fn spec_name(self) -> Seq<u8> {
        match self {
            PublicKeyAlgorithm::SSH_RSA => "ssh-rsa".spec_bytes(),
            PublicKeyAlgorithm::RSA_SHA2_256 => "rsa-sha2-256".spec_bytes(),
            PublicKeyAlgorithm::RSA_SHA2_512 => "rsa-sha2-512".spec_bytes(),
            PublicKeyAlgorithm::ECDSA_SHA2_NISTP256 => "ecdsa-sha2-nistp256".spec_bytes(),
            PublicKeyAlgorithm::ECDSA_SHA2_NISTP384 => "ecdsa-sha2-nistp384".spec_bytes(),
            PublicKeyAlgorithm::ECDSA_SHA2_NISTP521 => "ecdsa-sha2-nistp521".spec_bytes(),
            PublicKeyAlgorithm::SSH_ED25519 => "ssh-ed25519".spec_bytes(),
        }
    }

    open spec fn spec_of_name(name: Seq<u8>) -> Option<PublicKeyAlgorithm> {
        if name == "ssh-rsa".spec_bytes() {
            Some(PublicKeyAlgorithm::SSH_RSA)
        } else if name == "rsa-sha2-256".spec_bytes() {
            Some(PublicKeyAlgorithm::RSA_SHA2_256)
        } else if name == "rsa-sha2-512".spec_bytes() {
            Some(PublicKeyAlgorithm::RSA_SHA2_512)
        } else if name == "ecdsa-sha2-nistp256".spec_bytes() {
            Some(PublicKeyAlgorithm::ECDSA_SHA2_NISTP256)
        } else if name == "ecdsa-sha2-nistp384".spec_bytes() {
            Some(PublicKeyAlgorithm::ECDSA_SHA2_NISTP384)
        } else if name == "ecdsa-sha2-nistp521".spec_bytes() {
            Some(PublicKeyAlgorithm::ECDSA_SHA2_NISTP521)
        } else if name == "ssh-ed25519".spec_bytes() {
            Some(PublicKeyAlgorithm::SSH_ED25519)
        } else {
            None
        }
    }

    fn name(&self) -> (r: &'static str) {
        match self {
            PublicKeyAlgorithm::SSH_RSA => "ssh-rsa",
            PublicKeyAlgorithm::RSA_SHA2_256 => "rsa-sha2-256",
            PublicKeyAlgorithm::RSA_SHA2_512 => "rsa-sha2-512",
            PublicKeyAlgorithm::ECDSA_SHA2_NISTP256 => "ecdsa-sha2-nistp256",
            PublicKeyAlgorithm::ECDSA_SHA2_NISTP384 => "ecdsa-sha2-nistp384",
            PublicKeyAlgorithm::ECDSA_SHA2_NISTP521 => "ecdsa-sha2-nistp521",
            PublicKeyAlgorithm::SSH_ED25519 => "ssh-ed25519",
        }
    }

    fn of_name(name: &[u8]) -> (r: Option<PublicKeyAlgorithm>) {
        if crate::codec::eq_bytes(name, "ssh-rsa".as_bytes()) {
            Some(PublicKeyAlgorithm::SSH_RSA)
        } else if crate::codec::eq_bytes(name, "rsa-sha2-256".as_bytes()) {
            Some(PublicKeyAlgorithm::RSA_SHA2_256)
        } else if crate::codec::eq_bytes(name, "rsa-sha2-512".as_bytes()) {
            Some(PublicKeyAlgorithm::RSA_SHA2_512)
        } else if crate::codec::eq_bytes(name, "ecdsa-sha2-nistp256".as_bytes()) {
            Some(PublicKeyAlgorithm::ECDSA_SHA2_NISTP256)
        } else if crate::codec::eq_bytes(name, "ecdsa-sha2-nistp384".as_bytes()) {
            Some(PublicKeyAlgorithm::ECDSA_SHA2_NISTP384)
        } else if crate::codec::eq_bytes(name, "ecdsa-sha2-nistp521".as_bytes()) {
            Some(PublicKeyAlgorithm::ECDSA_SHA2_NISTP521)
        } else if crate::codec::eq_bytes(name, "ssh-ed25519".as_bytes()) {
            Some(PublicKeyAlgorithm::SSH_ED25519)
        } else {
            None
        }
    }

    fn same(&self, other: &Self) -> (r: bool) {
        *self == *other
    }
}

// ---------------------------------------------------------------------------
// Encryption
// ---------------------------------------------------------------------------

/// An encryption algorithm name a client may offer.
#[derive(Clone, Copy, PartialEq, Eq, Structural, Debug)]
#[allow(non_camel_case_types)]
pub enum EncryptionAlgorithm {
    AES128_CTR,
    AES128_CBC,
    AES192_CTR,
    AES192_CBC,
    AES256_CTR,
    AES256_CBC,
    NoEncryption,
}

impl AlgorithmId for EncryptionAlgorithm {
    open spec fn spec_name(self) -> Seq<u8> {
        match self {
            EncryptionAlgorithm::AES128_CTR => "aes128-ctr".spec_bytes(),
            EncryptionAlgorithm::AES128_CBC => "aes128-cbc".spec_bytes(),
            EncryptionAlgorithm::AES192_CTR => "aes192-ctr".spec_bytes(),
            EncryptionAlgorithm::AES192_CBC => "aes192-cbc".spec_bytes(),
            EncryptionAlgorithm::AES256_CTR => "aes256-ctr".spec_bytes(),
            EncryptionAlgorithm::AES256_CBC => "aes256-cbc".spec_bytes(),
            EncryptionAlgorithm::NoEncryption => "none".spec_bytes(),
        }
    }

    open spec fn spec_of_name(name: Seq<u8>) -> Option<EncryptionAlgorithm> {
        if name == "aes128-ctr".spec_bytes() {
            Some(EncryptionAlgorithm::AES128_CTR)
        } else if name == "aes128-cbc".spec_bytes() {
            Some(EncryptionAlgorithm::AES128_CBC)
        } else if name == "aes192-ctr".spec_bytes() {
            Some(EncryptionAlgorithm::AES192_CTR)
        } else if name == "aes192-cbc".spec_bytes() {
            Some(EncryptionAlgorithm::AES192_CBC)
        } else if name == "aes256-ctr".spec_bytes() {
            Some(EncryptionAlgorithm::AES256_CTR)
        } else if name == "aes256-cbc".spec_bytes() {
            Some(EncryptionAlgorithm::AES256_CBC)
        } else if name == "none".spec_bytes() {
            Some(EncryptionAlgorithm::NoEncryption)
        } else {
            None
        }
    }

    fn name(&self) -> (r: &'static str) {
        match self {
            EncryptionAlgorithm::AES128_CTR => "aes128-ctr",
            EncryptionAlgorithm::AES128_CBC => "aes128-cbc",
            EncryptionAlgorithm::AES192_CTR => "aes192-ctr",
            EncryptionAlgorithm::AES192_CBC => "aes192-cbc",
            EncryptionAlgorithm::AES256_CTR => "aes256-ctr",
            EncryptionAlgorithm::AES256_CBC => "aes256-cbc",
            EncryptionAlgorithm::NoEncryption => "none",
        }
    }

    fn of_name(name: &[u8]) -> (r: Option<EncryptionAlgorithm>) {
        if crate::codec::eq_bytes(name, "aes128-ctr".as_bytes()) {
            Some(EncryptionAlgorithm::AES128_CTR)
        } else if crate::codec::eq_bytes(name, "aes128-cbc".as_bytes()) {
            Some(EncryptionAlgorithm::AES128_CBC)
        } else if crate::codec::eq_bytes(name, "aes192-ctr".as_bytes()) {
            Some(EncryptionAlgorithm::AES192_CTR)
        } else if crate::codec::eq_bytes(name, "aes192-cbc".as_bytes()) {
            Some(EncryptionAlgorithm::AES192_CBC)
        } else if crate::codec::eq_bytes(name, "aes256-ctr".as_bytes()) {
            Some(EncryptionAlgorithm::AES256_CTR)
        } else if crate::codec::eq_bytes(name, "aes256-cbc".as_bytes()) {
            Some(EncryptionAlgorithm::AES256_CBC)
        } else if crate::codec::eq_bytes(name, "none".as_bytes()) {
            Some(EncryptionAlgorithm::NoEncryption)
        } else {
            None
        }
    }

    fn same(&self, other: &Self) -> (r: bool) {
        *self == *other
    }
}

// ---------------------------------------------------------------------------
// Message authentication
// ---------------------------------------------------------------------------

/// A MAC algorithm name a client may offer.
#[derive(Clone, Copy, PartialEq, Eq, Structural, Debug)]
#[allow(non_camel_case_types)]
pub enum MacAlgorithm {
    HMAC_SHA1,
    HMAC_SHA2_256,
    HMAC_SHA2_512,
    NoMac,
}

impl AlgorithmId for MacAlgorithm {
    open spec fn spec_name(self) -> Seq<u8> {
        match self {
            MacAlgorithm::HMAC_SHA1 => "hmac-sha1".spec_bytes(),
            MacAlgorithm::HMAC_SHA2_256 => "hmac-sha2-256".spec_bytes(),
            MacAlgorithm::HMAC_SHA2_512 => "hmac-sha2-512".spec_bytes(),
            MacAlgorithm::NoMac => "none".spec_bytes(),
        }
    }

    open spec fn spec_of_name(name: Seq<u8>) -> Option<MacAlgorithm> {
        if name == "hmac-sha1".spec_bytes() {
            Some(MacAlgorithm::HMAC_SHA1)
        } else if name == "hmac-sha2-256".spec_bytes() {
            Some(MacAlgorithm::HMAC_SHA2_256)
        } else if name == "hmac-sha2-512".spec_bytes() {
            Some(MacAlgorithm::HMAC_SHA2_512)
        } else {
            None
        }
    }

    fn name(&self) -> (r: &'static str) {
        match self {
            MacAlgorithm::HMAC_SHA1 => "hmac-sha1",
            MacAlgorithm::HMAC_SHA2_256 => "hmac-sha2-256",
            MacAlgorithm::HMAC_SHA2_512 => "hmac-sha2-512",
            MacAlgorithm::NoMac => "none",
        }
    }

    fn of_name(name: &[u8]) -> (r: Option<MacAlgorithm>) {
        if crate::codec::eq_bytes(name, "hmac-sha1".as_bytes()) {
            Some(MacAlgorithm::HMAC_SHA1)
        } else if crate::codec::eq_bytes(name, "hmac-sha2-256".as_bytes()) {
            Some(MacAlgorithm::HMAC_SHA2_256)
        } else if crate::codec::eq_bytes(name, "hmac-sha2-512".as_bytes()) {
            Some(MacAlgorithm::HMAC_SHA2_512)
        } else {
            None
        }
    }

    fn same(&self, other: &Self) -> (r: bool) {
        *self == *other
    }
}

// ---------------------------------------------------------------------------
// Compression
// ---------------------------------------------------------------------------

/// A compression algorithm name a client may offer.
#[derive(Clone, Copy, PartialEq, Eq, Structural, Debug)]
pub enum CompressionAlgorithm {
    Zlib,
    NoCompression,
}

impl AlgorithmId for CompressionAlgorithm {
    open spec fn spec_name(self) -> Seq<u8> {
        match self {
            CompressionAlgorithm::Zlib => "zlib".spec_bytes(),
            CompressionAlgorithm::NoCompression => "none".spec_bytes(),
        }
    }

    open spec fn spec_of_name(name: Seq<u8>) -> Option<CompressionAlgorithm> {
        if name == "zlib".spec_bytes() {
            Some(CompressionAlgorithm::Zlib)
        } else if name == "none".spec_bytes() {
            Some(CompressionAlgorithm::NoCompression)
        } else {
            None
        }
    }

    fn name(&self) -> (r: &'static str) {
        match self {
            CompressionAlgorithm::Zlib => "zlib",
            CompressionAlgorithm::NoCompression => "none",
        }
    }

    fn of_name(name: &[u8]) -> (r: Option<CompressionAlgorithm>) {
        if crate::codec::eq_bytes(name, "zlib".as_bytes()) {
            Some(CompressionAlgorithm::Zlib)
        } else if crate::codec::eq_bytes(name, "none".as_bytes()) {
            Some(CompressionAlgorithm::NoCompression)
        } else {
            None
        }
    }

    fn same(&self, other: &Self) -> (r: bool) {
        *self == *other
    }
}

// ---------------------------------------------------------------------------
// The registry
// ---------------------------------------------------------------------------

/// The implemented key-exchange algorithms, ordered by preference.
pub fn key_exchange_algorithms() -> (r: Vec<KeyExchangeAlgorithm>)
    ensures
        r@ == seq![KeyExchangeAlgorithm::CURVE25519_SHA256],
{
    let mut r: Vec<KeyExchangeAlgorithm> = Vec::new();
    r.push(KeyExchangeAlgorithm::CURVE25519_SHA256);
    assert(r@ =~= seq![KeyExchangeAlgorithm::CURVE25519_SHA256]);
    r
}

/// The implemented host-key algorithms, ordered by preference.
pub fn host_key_algorithms() -> (r: Vec<PublicKeyAlgorithm>)
    ensures
        r@ == seq![PublicKeyAlgorithm::SSH_ED25519],
{
    let mut r: Vec<PublicKeyAlgorithm> = Vec::new();
    r.push(PublicKeyAlgorithm::SSH_ED25519);
    assert(r@ =~= seq![PublicKeyAlgorithm::SSH_ED25519]);
    r
}

/// The implemented encryption algorithms, ordered by preference.
pub fn encryption_algorithms() -> (r: Vec<EncryptionAlgorithm>)
    ensures
        r@ == seq![EncryptionAlgorithm::AES256_CTR],
{
    let mut r: Vec<EncryptionAlgorithm> = Vec::new();
    r.push(EncryptionAlgorithm::AES256_CTR);
    assert(r@ =~= seq![EncryptionAlgorithm::AES256_CTR]);
    r
}

/// The implemented MAC algorithms, ordered by preference.
pub fn mac_algorithms() -> (r: Vec<MacAlgorithm>)
    ensures
        r@ == seq![MacAlgorithm::HMAC_SHA2_256],
{
    let mut r: Vec<MacAlgorithm> = Vec::new();
    r.push(MacAlgorithm::HMAC_SHA2_256);
    assert(r@ =~= seq![MacAlgorithm::HMAC_SHA2_256]);
    r
}

/// The implemented compression algorithms, ordered by preference; only the
/// mandatory `none` is offered.
pub fn compression_algorithms() -> (r: Vec<CompressionAlgorithm>)
    ensures
        r@ == seq![CompressionAlgorithm::NoCompression],
{
    let mut r: Vec<CompressionAlgorithm> = Vec::new();
    r.push(CompressionAlgorithm::NoCompression);
    assert(r@ =~= seq![CompressionAlgorithm::NoCompression]);
    r
}

} // verus!
