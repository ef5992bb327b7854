//! Deterministic replicate seeds and provenance records for
//! application-owned random number generators.
//!
//! A replicate seed is SHA-256 over a versioned, domain-separated byte
//! message; its record carries everything needed to reproduce it.
use vstd::prelude::*;
use vstd::string::{StringExecFns, StringSliceAdditionalSpecFns};
use crate::digest::{sha256, sha256_of};
use crate::text::{is_blank, is_blank_text, decimal_spec, decimal_text, append_decimal};

verus! {

/// Reserved user-metadata key containing records indexed by namespace.
pub const RNG_RECORDS_METADATA_KEY: &'static str = "rng_records";

/// The method of derived replicate seeds.
pub const REPLICATE_SEED_METHOD: &'static str = "sha256-domain-separated";

/// The version of the replicate seed byte contract.
pub const REPLICATE_SEED_VERSION: &'static str = "scientific-workflow.replicate-seed.v1";

/// The key encoding of derived replicate seeds.
pub const SEED_KEY_ENCODING: &'static str = "u64-decimal";

/// The eight big-endian bytes of `x`.
pub open spec fn be_bytes(x: u64) -> Seq<u8> {
    seq![
        (x / 0x100000000000000) as u8,
        ((x / 0x1000000000000) % 256) as u8,
        ((x / 0x10000000000) % 256) as u8,
        ((x / 0x100000000) % 256) as u8,
        ((x / 0x1000000) % 256) as u8,
        ((x / 0x10000) % 256) as u8,
        ((x / 0x100) % 256) as u8,
        (x % 256) as u8
    ]
}

/// The `u64` read big-endian from the first eight bytes of `b`.
pub open spec fn be_u64(b: Seq<u8>) -> int {
    b[0] * 0x100000000000000 + b[1] * 0x1000000000000 + b[2] * 0x10000000000 + b[3] * 0x100000000
        + b[4] * 0x1000000 + b[5] * 0x10000 + b[6] * 0x100 + b[7]
}

/// The byte message whose SHA-256 digest seeds one named replicate stream:
/// the version text, a zero byte, the base seed, the replicate index, the
/// namespace's byte length (each as eight big-endian bytes), and the
/// namespace bytes.
pub open spec fn seed_message(base_seed: u64, replicate_index: u64, namespace: Seq<u8>) -> Seq<u8> {
    REPLICATE_SEED_VERSION.spec_bytes() + seq![0u8] + be_bytes(base_seed) + be_bytes(replicate_index)
        + be_bytes(namespace.len() as u64) + namespace
}

/// The seed derived for one namespace.
pub open spec fn derived_seed(base_seed: u64, replicate_index: u64, namespace: Seq<u8>) -> int {
    be_u64(sha256_of(seed_message(base_seed, replicate_index, namespace)))
}

/// The JSON object text of the parameters of a derived seed.
pub open spec fn seed_parameters_text(base_seed: u64, replicate_index: u64) -> Seq<char> {
    "{\"base_seed\":"@ + decimal_spec(base_seed as nat) + ",\"replicate_index\":"@
        + decimal_spec(replicate_index as nat) + "}"@
}

/// Appends the eight big-endian bytes of `x`.
fn push_be_bytes(out: &mut Vec<u8>, x: u64)
    ensures
        final(out)@ == old(out)@ + be_bytes(x),
{
    out.push((x / 0x100000000000000) as u8);
    out.push(((x / 0x1000000000000) % 256) as u8);
    out.push(((x / 0x10000000000) % 256) as u8);
    out.push(((x / 0x100000000) % 256) as u8);
    out.push(((x / 0x1000000) % 256) as u8);
    out.push(((x / 0x10000) % 256) as u8);
    out.push(((x / 0x100) % 256) as u8);
    out.push((x % 256) as u8);
    assert(out@ =~= old(out)@ + be_bytes(x));
}

/// Builds the byte message whose digest seeds the stream `namespace` of
/// one replicate.
pub fn seed_message_bytes(base_seed: u64, replicate_index: u64, namespace: &str) -> (r: Vec<u8>)
    ensures
        r@ == seed_message(base_seed, replicate_index, namespace.spec_bytes()),
{
    let mut message: Vec<u8> = Vec::new();
    let version = REPLICATE_SEED_VERSION.as_bytes();
    let mut i: usize = 0;
    while i < version.len()
        invariant
            i <= version@.len(),
            message@ == version@.take(i as int),
        decreases version@.len() - i,
    {
        message.push(version[i]);
        i = i + 1;
        assert(message@ =~= version@.take(i as int));
    }
    assert(version@.take(version@.len() as int) =~= version@);
    message.push(0u8);
    push_be_bytes(&mut message, base_seed);
    push_be_bytes(&mut message, replicate_index);
    let bytes = namespace.as_bytes();
    push_be_bytes(&mut message, bytes.len() as u64);
    let ghost prefix = message@;
    let mut k: usize = 0;
    while k < bytes.len()
        invariant
            k <= bytes@.len(),
            message@ == prefix + bytes@.take(k as int),
        decreases bytes@.len() - k,
    {
        message.push(bytes[k]);
        k = k + 1;
        assert(message@ =~= prefix + bytes@.take(k as int));
    }
    assert(bytes@.take(bytes@.len() as int) =~= bytes@);
    assert(message@ =~= seed_message(base_seed, replicate_index, namespace.spec_bytes()));
    message
}

/// Reads the seed from a digest: its first eight bytes, big-endian.
pub fn seed_from_digest(digest: &[u8]) -> (r: u64)
    requires
        digest@.len() >= 8,
    ensures
        r == be_u64(digest@),
{
    (digest[0] as u64) * 0x100000000000000 + (digest[1] as u64) * 0x1000000000000
        + (digest[2] as u64) * 0x10000000000 + (digest[3] as u64) * 0x100000000
        + (digest[4] as u64) * 0x1000000 + (digest[5] as u64) * 0x10000 + (digest[6] as u64) * 0x100
        + (digest[7] as u64)
}

/// Reading the eight big-endian bytes of `x` back gives `x`.
proof fn lemma_be_round_trip(x: u64)
    ensures
        be_u64(be_bytes(x)) == x,
{
    assert(x == (x / 0x100000000000000) * 0x100000000000000 + ((x / 0x1000000000000) % 256) * 0x1000000000000
        + ((x / 0x10000000000) % 256) * 0x10000000000 + ((x / 0x100000000) % 256) * 0x100000000
        + ((x / 0x1000000) % 256) * 0x1000000 + ((x / 0x10000) % 256) * 0x10000
        + ((x / 0x100) % 256) * 0x100 + x % 256) by (bit_vector);
    assert(x / 0x100000000000000 < 256) by (bit_vector);
}

/// Where the parts of a seed message stand: after the version text and its
/// zero byte come the base seed, the replicate index, the namespace length,
/// and the namespace itself.
proof fn lemma_seed_message_parts(base_seed: u64, replicate_index: u64, namespace: Seq<u8>)
    ensures
        ({
            let m = seed_message(base_seed, replicate_index, namespace);
            let n = REPLICATE_SEED_VERSION.spec_bytes().len() + 1int;
            &&& m.len() == n + 24 + namespace.len()
            &&& m.subrange(n, n + 8) == be_bytes(base_seed)
            &&& m.subrange(n + 8, n + 16) == be_bytes(replicate_index)
            &&& m.subrange(n + 16, n + 24) == be_bytes(namespace.len() as u64)
            &&& m.subrange(n + 24, m.len() as int) == namespace
        }),
{
    let v = REPLICATE_SEED_VERSION.spec_bytes() + seq![0u8];
    let a = v + be_bytes(base_seed);
    let b = a + be_bytes(replicate_index);
    let c = b + be_bytes(namespace.len() as u64);
    let m = c + namespace;
    let n = v.len() as int;
    assert(m.subrange(n, n + 8) =~= be_bytes(base_seed));
    assert(m.subrange(n + 8, n + 16) =~= be_bytes(replicate_index));
    assert(m.subrange(n + 16, n + 24) =~= be_bytes(namespace.len() as u64));
    assert(m.subrange(n + 24, m.len() as int) =~= namespace);
}

/// Seed messages are domain-separated: two messages are equal only for the
/// same base seed, replicate index, and namespace, so distinct namespaces
/// (or replicates, or base seeds) never hash the same bytes.
pub proof fn law_seed_messages_are_domain_separated(
    base_a: u64,
    index_a: u64,
    namespace_a: Seq<u8>,
    base_b: u64,
    index_b: u64,
    namespace_b: Seq<u8>,
)
    requires
        namespace_a.len() <= u64::MAX,
        namespace_b.len() <= u64::MAX,
        seed_message(base_a, index_a, namespace_a) == seed_message(base_b, index_b, namespace_b),
    ensures
        base_a == base_b,
        index_a == index_b,
        namespace_a == namespace_b,
{
    lemma_seed_message_parts(base_a, index_a, namespace_a);
    lemma_seed_message_parts(base_b, index_b, namespace_b);
    lemma_be_round_trip(base_a);
    lemma_be_round_trip(base_b);
    lemma_be_round_trip(index_a);
    lemma_be_round_trip(index_b);
}

/// Lazy source of deterministic, order-independent named replicate seeds.
///
/// The same base seed, replicate index, and namespace always give the same
/// seed; different namespaces are domain-separated.
#[derive(Clone, Copy, Debug, PartialEq, Eq, Structural)]
pub struct ReplicateSeedDeriver {
    base_seed: u64,
    replicate_index: u64,
}

/// One derived seed together with its provenance record.
pub struct DerivedSeed {
    value: u64,
    record: RngRecord,
}

impl ReplicateSeedDeriver {
    /// The study-level base seed.
    pub closed spec fn base_seed_spec(self) -> u64 {
        self.base_seed
    }

    /// The zero-based replicate index.
    pub closed spec fn replicate_index_spec(self) -> u64 {
        self.replicate_index
    }

    /// Creates a lazy deriver for one replicate.
    pub fn new(base_seed: u64, replicate_index: u64) -> (r: Self)
        ensures
            r.base_seed_spec() == base_seed,
            r.replicate_index_spec() == replicate_index,
    {
        ReplicateSeedDeriver { base_seed, replicate_index }
    }

    /// Returns the study-level base seed.
    pub fn base_seed(self) -> (r: u64)
        ensures
            r == self.base_seed_spec(),
    {
        self.base_seed
    }

    /// Returns the zero-based replicate index.
    pub fn replicate_index(self) -> (r: u64)
        ensures
            r == self.replicate_index_spec(),
    {
        self.replicate_index
    }

    /// Derives one named stream seed and its provenance record. A blank
    /// namespace is rejected.
    pub fn derive(self, namespace: &str) -> (r: Result<DerivedSeed, RngRecordError>)
        ensures
            is_blank(namespace@) <==> r is Err,
            r matches Err(e) ==> e is EmptySeedNamespace,
            r matches Ok(d) ==> {
                let value = derived_seed(self.base_seed_spec(), self.replicate_index_spec(), namespace.spec_bytes());
                &&& d.value_spec() == value
                &&& d.record_spec().namespace_spec() == namespace@
                &&& d.record_spec().method_spec() == REPLICATE_SEED_METHOD@
                &&& d.record_spec().version_spec() == REPLICATE_SEED_VERSION@
                &&& d.record_spec().key_encoding_spec() == SEED_KEY_ENCODING@
                &&& d.record_spec().key_spec() == decimal_spec(value as nat)
                &&& d.record_spec().parameters_spec()
                    == seed_parameters_text(self.base_seed_spec(), self.replicate_index_spec())
            },
    {
        if is_blank_text(namespace) {
            return Err(RngRecordError::EmptySeedNamespace);
        }
        let message = seed_message_bytes(self.base_seed, self.replicate_index, namespace);
        let digest = sha256(message.as_slice());
        let value = seed_from_digest(digest.as_slice());
        let mut parameters = "{\"base_seed\":".to_owned();
        append_decimal(&mut parameters, self.base_seed);
        parameters.append(",\"replicate_index\":");
        append_decimal(&mut parameters, self.replicate_index);
        parameters.append("}");
        proof {
            lemma_literals_not_blank();
            assert(parameters@ =~= seed_parameters_text(self.base_seed, self.replicate_index));
            crate::text::lemma_decimal_not_blank(value as nat);
        }
        let record = match RngRecord::new(
            namespace.to_owned(),
            REPLICATE_SEED_METHOD.to_owned(),
            REPLICATE_SEED_VERSION.to_owned(),
            SEED_KEY_ENCODING.to_owned(),
            decimal_text(value),
            Some(parameters),
        ) {
            Ok(record) => record,
            Err(_) => vstd::pervasive::unreached(),
        };
        Ok(DerivedSeed { value, record })
    }
}

proof fn lemma_literals_not_blank()
    ensures
        !is_blank(REPLICATE_SEED_METHOD@),
        !is_blank(REPLICATE_SEED_VERSION@),
        !is_blank(SEED_KEY_ENCODING@),
{
    reveal_strlit("sha256-domain-separated");
    reveal_strlit("scientific-workflow.replicate-seed.v1");
    reveal_strlit("u64-decimal");
    assert(!crate::text::is_unicode_whitespace(REPLICATE_SEED_METHOD@[0]));
    assert(!crate::text::is_unicode_whitespace(REPLICATE_SEED_METHOD@.last()));
    assert(!crate::text::is_unicode_whitespace(REPLICATE_SEED_VERSION@[0]));
    assert(!crate::text::is_unicode_whitespace(REPLICATE_SEED_VERSION@.last()));
    assert(!crate::text::is_unicode_whitespace(SEED_KEY_ENCODING@[0]));
    assert(!crate::text::is_unicode_whitespace(SEED_KEY_ENCODING@.last()));
}

impl DerivedSeed {
    /// The seed.
    pub closed spec fn value_spec(&self) -> u64 {
        self.value
    }

    /// The provenance record.
    pub closed spec fn record_spec(&self) -> RngRecord {
        self.record
    }

    /// Returns the derived `u64` suitable for application RNG construction.
    pub fn value(&self) -> (r: u64)
        ensures
            r == self.value_spec(),
    {
        self.value
    }

    /// Borrows the record that should accompany persisted RNG output.
    pub fn record(&self) -> (r: &RngRecord)
        ensures
            *r == self.record_spec(),
    {
        &self.record
    }

    /// Splits the result into its seed and owned provenance record.
    pub fn into_parts(self) -> (r: (u64, RngRecord))
        ensures
            r.0 == self.value_spec(),
            r.1 == self.record_spec(),
    {
        (self.value, self.record)
    }
}

/// Immutable identity of one application-owned random source.
///
/// `parameters` is the JSON object text of application-defined method
/// parameters; `{}` when there are none.
pub struct RngRecord {
    namespace: String,
    method: String,
    version: String,
    key_encoding: String,
    key: String,
    parameters: String,
}

/// The first blank field of a record, in declaration order.
pub open spec fn first_blank_field(fields: Seq<Seq<char>>) -> Option<int> {
    if exists|i: int| 0 <= i < fields.len() && is_blank(#[trigger] fields[i]) {
        Some(choose|i: int| 0 <= i < fields.len() && is_blank(#[trigger] fields[i])
            && forall|k: int| 0 <= k < i ==> !is_blank(#[trigger] fields[k]))
    } else {
        None
    }
}

/// The names of the validated record fields, in order.
pub open spec fn record_field_names() -> Seq<Seq<char>> {
    seq!["namespace"@, "method"@, "version"@, "key_encoding"@, "key"@]
}

impl RngRecord {
    /// The namespace.
    pub closed spec fn namespace_spec(&self) -> Seq<char> { self.namespace@ }
    /// The method.
    pub closed spec fn method_spec(&self) -> Seq<char> { self.method@ }
    /// The version.
    pub closed spec fn version_spec(&self) -> Seq<char> { self.version@ }
    /// The key encoding.
    pub closed spec fn key_encoding_spec(&self) -> Seq<char> { self.key_encoding@ }
    /// The key.
    pub closed spec fn key_spec(&self) -> Seq<char> { self.key@ }
    /// The parameter object text.
    pub closed spec fn parameters_spec(&self) -> Seq<char> { self.parameters@ }

    /// The validated text fields, in order.
    pub open spec fn fields_spec(&self) -> Seq<Seq<char>> {
        seq![self.namespace_spec(), self.method_spec(), self.version_spec(), self.key_encoding_spec(), self.key_spec()]
    }

    /// Creates and validates one record. The first blank text field, in
    /// the order namespace, method, version, key encoding, key, is rejected.
    /// Absent parameters are the empty object.
    pub fn new(namespace: String, method: String, version: String, key_encoding: String, key: String, parameters: Option<String>)
        -> (r: Result<Self, RngRecordError>)
        ensures
            ({
                let fields = seq![namespace@, method@, version@, key_encoding@, key@];
                &&& r is Ok <==> first_blank_field(fields) is None
                &&& r matches Ok(record) ==> record.fields_spec() == fields
                    && record.parameters_spec() == match parameters { Some(p) => p@, None => "{}"@ }
                &&& r matches Err(e) ==> (e matches RngRecordError::EmptyField { field }
                    && (first_blank_field(fields) matches Some(i) && field@ == record_field_names()[i]))
            }),
    {
        let parameters = match parameters {
            Some(p) => p,
            None => "{}".to_owned(),
        };
        let record = RngRecord { namespace, method, version, key_encoding, key, parameters };
        match record.validate() {
            Ok(()) => Ok(record),
            Err(e) => Err(e),
        }
    }

    /// Rejects the first blank text field.
    pub fn validate(&self) -> (r: Result<(), RngRecordError>)
        ensures
            r is Ok <==> first_blank_field(self.fields_spec()) is None,
            r matches Err(e) ==> (e matches RngRecordError::EmptyField { field }
                && (first_blank_field(self.fields_spec()) matches Some(i) && field@ == record_field_names()[i])),
    {
        let ghost fields = self.fields_spec();
        proof {
            reveal_strlit("namespace");
            reveal_strlit("method");
            reveal_strlit("version");
            reveal_strlit("key_encoding");
            reveal_strlit("key");
        }
        if is_blank_text(self.namespace.as_str()) {
            proof { lemma_first_blank_at(fields, 0); }
            return Err(RngRecordError::EmptyField { field: "namespace" });
        }
        if is_blank_text(self.method.as_str()) {
            proof { lemma_first_blank_at(fields, 1); }
            return Err(RngRecordError::EmptyField { field: "method" });
        }
        if is_blank_text(self.version.as_str()) {
            proof { lemma_first_blank_at(fields, 2); }
            return Err(RngRecordError::EmptyField { field: "version" });
        }
        if is_blank_text(self.key_encoding.as_str()) {
            proof { lemma_first_blank_at(fields, 3); }
            return Err(RngRecordError::EmptyField { field: "key_encoding" });
        }
        if is_blank_text(self.key.as_str()) {
            proof { lemma_first_blank_at(fields, 4); }
            return Err(RngRecordError::EmptyField { field: "key" });
        }
        proof {
            if first_blank_field(fields) is Some {
                let i = choose|i: int| 0 <= i < fields.len() && is_blank(#[trigger] fields[i]);
                assert(!is_blank(fields[i]));
            }
        }
        Ok(())
    }

    /// Returns the collision domain used inside recording metadata.
    pub fn namespace(&self) -> (r: &str)
        ensures r@ == self.namespace_spec(),
    {
        self.namespace.as_str()
    }

    /// Returns the application-declared RNG or sampling method.
    pub fn method(&self) -> (r: &str)
        ensures r@ == self.method_spec(),
    {
        self.method.as_str()
    }

    /// Returns the application-declared sequence-affecting version.
    pub fn version(&self) -> (r: &str)
        ensures r@ == self.version_spec(),
    {
        self.version.as_str()
    }

    /// Returns the application-declared key representation.
    pub fn key_encoding(&self) -> (r: &str)
        ensures r@ == self.key_encoding_spec(),
    {
        self.key_encoding.as_str()
    }

    /// Returns the persisted reproducibility key.
    pub fn key(&self) -> (r: &str)
        ensures r@ == self.key_spec(),
    {
        self.key.as_str()
    }

    /// Returns the JSON object text of the method parameters.
    pub fn parameters(&self) -> (r: &str)
        ensures r@ == self.parameters_spec(),
    {
        self.parameters.as_str()
    }

    /// Checks that the record may be inserted into a metadata index that
    /// already holds records under `existing`: it must validate, and its
    /// namespace must be new.
    pub fn check_insertable(&self, existing: &[String]) -> (r: Result<(), RngRecordError>)
        ensures
            ({
                let blank = first_blank_field(self.fields_spec());
                let taken = exists|k: int| 0 <= k < existing@.len() && #[trigger] existing@[k]@ == self.namespace_spec();
                &&& r is Ok <==> blank is None && !taken
                &&& blank is Some ==> (r matches Err(RngRecordError::EmptyField { .. }))
                &&& blank is None && taken ==> (r matches Err(RngRecordError::DuplicateNamespace { namespace })
                    && namespace@ == self.namespace_spec())
            }),
    {
        match self.validate() {
            Ok(()) => {},
            Err(e) => {
                return Err(e);
            },
        }
        let mut k: usize = 0;
        while k < existing.len()
            invariant
                k <= existing@.len(),
                first_blank_field(self.fields_spec()) is None,
                forall|j: int| 0 <= j < k ==> (#[trigger] existing@[j])@ != self.namespace_spec(),
            decreases existing@.len() - k,
        {
            if existing[k] == self.namespace {
                assert(existing@[k as int]@ == self.namespace_spec());
                return Err(RngRecordError::DuplicateNamespace { namespace: self.namespace.clone() });
            }
            k = k + 1;
        }
        Ok(())
    }

    /// Accepts a record read from metadata under the index `namespace`: it
    /// must validate, and its own namespace must equal the index.
    pub fn accept_stored(self, namespace: &str) -> (r: Result<Self, RngRecordError>)
        ensures
            ({
                let blank = first_blank_field(self.fields_spec());
                &&& r is Ok <==> blank is None && self.namespace_spec() == namespace@
                &&& r matches Ok(record) ==> record == self
                &&& blank is Some ==> (r matches Err(RngRecordError::EmptyField { .. }))
                &&& blank is None && self.namespace_spec() != namespace@ ==>
                    (r matches Err(RngRecordError::NamespaceMismatch { index, record })
                        && index@ == namespace@ && record@ == self.namespace_spec())
            }),
    {
        match self.validate() {
            Ok(()) => {},
            Err(e) => {
                return Err(e);
            },
        }
        let index = namespace.to_owned();
        if self.namespace != index {
            return Err(RngRecordError::NamespaceMismatch { index, record: self.namespace });
        }
        Ok(self)
    }
}

/// Field `i` is the first blank one.
proof fn lemma_first_blank_at(fields: Seq<Seq<char>>, i: int)
    requires
        0 <= i < fields.len(),
        is_blank(fields[i]),
        forall|k: int| 0 <= k < i ==> !is_blank(#[trigger] fields[k]),
    ensures
        first_blank_field(fields) == Some(i),
{
    let w = choose|w: int| 0 <= w < fields.len() && is_blank(#[trigger] fields[w])
        && forall|k: int| 0 <= k < w ==> !is_blank(#[trigger] fields[k]);
    if w < i {
        assert(!is_blank(fields[w]));
    } else if w > i {
        assert(!is_blank(fields[i]));
    }
}

/// Rejection while constructing or embedding RNG provenance.
#[derive(Debug)]
pub enum RngRecordError {
    /// A requested replicate stream has no stable identity.
    EmptySeedNamespace,
    /// A namespace cannot be represented by the versioned length encoding.
    SeedNamespaceTooLong,
    /// A required textual identity field is empty or whitespace-only.
    EmptyField { field: &'static str },
    /// A metadata map already contains a record for the namespace.
    DuplicateNamespace { namespace: String },
    /// The reserved metadata entry is not an object indexed by namespace.
    InvalidMetadataShape,
    /// A stored namespaced value does not decode as an RNG record.
    InvalidStoredRecord { namespace: String, reason: String },
    /// The metadata index and embedded record namespace disagree.
    NamespaceMismatch { index: String, record: String },
}

} // verus!
