use vstd::prelude::*;

verus! {

/// Response code: format error.
pub const RCODE_FORM_ERR: u16 = 1;

/// Response code: server failure.
pub const RCODE_SERV_FAIL: u16 = 2;

/// Response code: not implemented.
pub const RCODE_NOT_IMP: u16 = 4;

/// How long, in milliseconds, a freshly stored entry stays fresh.
pub const FIXED_TTL_MS: u64 = 5000;

/// The number of entries the proxy's cache holds at most.
pub const DEFAULT_CAPACITY: usize = 65535;

/// ASCII lower-casing of one byte of a domain name.
pub open spec fn lower_byte(b: u8) -> u8 {
    if 65 <= b && b <= 90 {
        (b + 32) as u8
    } else {
        b
    }
}

/// The canonical form of a domain name: names compare without regard to
/// ASCII case.
pub open spec fn lower_name(s: Seq<u8>) -> Seq<u8> {
    s.map_values(|b: u8| lower_byte(b))
}

/// The view of a list of records, each a wire-encoded resource record.
pub open spec fn records_view(v: Vec<Vec<u8>>) -> Seq<Seq<u8>> {
    v@.map_values(|r: Vec<u8>| r@)
}

/// Identity of a cacheable question: the name (held in canonical form), the
/// query class, the query type, and whether DNSSEC records were asked for.
#[derive(PartialEq, Eq, Hash)]
pub struct CacheKey {
    name: Vec<u8>,
    qclass: u16,
    qtype: u16,
    is_dnssec: bool,
}

pub type KeyView = (Seq<u8>, u16, u16, bool);

impl View for CacheKey {
    type V = KeyView;

    closed spec fn view(&self) -> KeyView {
        (self.name@, self.qclass, self.qtype, self.is_dnssec)
    }
}

fn lower_ascii(b: u8) -> (r: u8)
    ensures
        r == lower_byte(b),
{
    if 65 <= b && b <= 90 {
        b + 32
    } else {
        b
    }
}

/// A copy of a byte string.
pub fn copy_bytes(v: &Vec<u8>) -> (r: Vec<u8>)
    ensures
        r@ == v@,
{
    let mut r: Vec<u8> = Vec::new();
    let mut i: usize = 0;
    while i < v.len()
        invariant
            i <= v.len(),
            r@ == v@.subrange(0, i as int),
        decreases v.len() - i,
    {
        r.push(v[i]);
        i += 1;
        assert(r@ =~= v@.subrange(0, i as int));
    }
    assert(r@ =~= v@);
    r
}

/// Appends copies of the records of `src` to `dst`.
pub fn append_records(dst: &mut Vec<Vec<u8>>, src: &Vec<Vec<u8>>)
    ensures
        records_view(*final(dst)) == records_view(*old(dst)) + records_view(*src),
{
    let ghost start = records_view(*dst);
    let mut i: usize = 0;
    while i < src.len()
        invariant
            i <= src.len(),
            records_view(*dst) == start + records_view(*src).subrange(0, i as int),
        decreases src.len() - i,
    {
        let ghost before = *dst;
        let rec = copy_bytes(&src[i]);
        dst.push(rec);
        i += 1;
        assert(records_view(*dst) =~= records_view(before).push(src@[i - 1]@));
        assert(records_view(*dst) =~= start + records_view(*src).subrange(0, i as int));
    }
    assert(records_view(*src).subrange(0, i as int) =~= records_view(*src));
}

/// A copy of a list of records.
pub fn copy_records(src: &Vec<Vec<u8>>) -> (r: Vec<Vec<u8>>)
    ensures
        records_view(r) == records_view(*src),
{
    let mut r: Vec<Vec<u8>> = Vec::new();
    assert(records_view(r) =~= Seq::<Seq<u8>>::empty());
    append_records(&mut r, src);
    assert(records_view(r) =~= records_view(*src));
    r
}

impl CacheKey {
    /// Builds the key of a question; the name is brought to canonical form.
    pub fn new(name: &Vec<u8>, qclass: u16, qtype: u16, is_dnssec: bool) -> (r: CacheKey)
        ensures
            r@ == (lower_name(name@), qclass, qtype, is_dnssec),
    {
        let mut n: Vec<u8> = Vec::new();
        let mut i: usize = 0;
        while i < name.len()
            invariant
                i <= name.len(),
                n@ == lower_name(name@.subrange(0, i as int)),
            decreases name.len() - i,
        {
            n.push(lower_ascii(name[i]));
            i += 1;
            assert(n@ =~= lower_name(name@.subrange(0, i as int)));
        }
        assert(name@.subrange(0, i as int) =~= name@);
        CacheKey { name: n, qclass, qtype, is_dnssec }
    }

    pub fn name(&self) -> (r: &Vec<u8>)
        ensures
            r@ == self@.0,
    {
        &self.name
    }

    pub fn qclass(&self) -> (r: u16)
        ensures
            r == self@.1,
    {
        self.qclass
    }

    pub fn qtype(&self) -> (r: u16)
        ensures
            r == self@.2,
    {
        self.qtype
    }

    pub fn is_dnssec(&self) -> (r: bool)
        ensures
            r == self@.3,
    {
        self.is_dnssec
    }

    /// Whether two keys identify the same question.
    pub fn same_as(&self, other: &CacheKey) -> (r: bool)
        ensures
            r == (self@ == other@),
    {
        if self.qclass != other.qclass || self.qtype != other.qtype
            || self.is_dnssec != other.is_dnssec || self.name.len() != other.name.len() {
            return false;
        }
        let mut i: usize = 0;
        while i < self.name.len()
            invariant
                i <= self.name.len(),
                self.name.len() == other.name.len(),
                forall|j: int| 0 <= j < i ==> self.name@[j] == other.name@[j],
            decreases self.name.len() - i,
        {
            if self.name[i] != other.name[i] {
                return false;
            }
            i += 1;
        }
        assert(self.name@ =~= other.name@);
        true
    }

    /// A copy of this key.
    pub fn copy(&self) -> (r: CacheKey)
        ensures
            r@ == self@,
    {
        CacheKey {
            name: copy_bytes(&self.name),
            qclass: self.qclass,
            qtype: self.qtype,
            is_dnssec: self.is_dnssec,
        }
    }
}

/// What a resolution yields: a response code and the three record sections,
/// in order.
pub struct Answer {
    pub response_code: u16,
    pub answers: Vec<Vec<u8>>,
    pub name_servers: Vec<Vec<u8>>,
    pub additionals: Vec<Vec<u8>>,
}

pub type AnswerView = (u16, Seq<Seq<u8>>, Seq<Seq<u8>>, Seq<Seq<u8>>);

impl View for Answer {
    type V = AnswerView;

    open spec fn view(&self) -> AnswerView {
        (
            self.response_code,
            records_view(self.answers),
            records_view(self.name_servers),
            records_view(self.additionals),
        )
    }
}

impl Answer {
    /// A copy of this answer.
    pub fn copy(&self) -> (r: Answer)
        ensures
            r@ == self@,
    {
        Answer {
            response_code: self.response_code,
            answers: copy_records(&self.answers),
            name_servers: copy_records(&self.name_servers),
            additionals: copy_records(&self.additionals),
        }
    }
}

/// A cached answer with the instant, in milliseconds, from which it is stale.
pub struct CacheEntry {
    pub valid_until: u64,
    pub answer: Answer,
}

pub type EntryView = (u64, AnswerView);

impl View for CacheEntry {
    type V = EntryView;

    open spec fn view(&self) -> EntryView {
        (self.valid_until, self.answer@)
    }
}

impl CacheEntry {
    /// A copy of this entry.
    pub fn copy(&self) -> (r: CacheEntry)
        ensures
            r@ == self@,
    {
        CacheEntry { valid_until: self.valid_until, answer: self.answer.copy() }
    }
}

/// The header flags of a response.
pub struct HeaderFlags {
    pub authoritative: bool,
    pub truncated: bool,
    pub recursion_desired: bool,
    pub recursion_available: bool,
    pub authentic_data: bool,
    pub checking_disabled: bool,
}

pub type FlagsView = (bool, bool, bool, bool, bool, bool);

impl View for HeaderFlags {
    type V = FlagsView;

    open spec fn view(&self) -> FlagsView {
        (
            self.authoritative,
            self.truncated,
            self.recursion_desired,
            self.recursion_available,
            self.authentic_data,
            self.checking_disabled,
        )
    }
}

/// No flag set.
pub open spec fn no_flags() -> FlagsView {
    (false, false, false, false, false, false)
}

impl HeaderFlags {
    /// The flags of a response built from the cache: none set.
    pub fn none() -> (r: HeaderFlags)
        ensures
            r@ == no_flags(),
    {
        HeaderFlags {
            authoritative: false,
            truncated: false,
            recursion_desired: false,
            recursion_available: false,
            authentic_data: false,
            checking_disabled: false,
        }
    }

    /// A copy of these flags.
    pub fn copy(&self) -> (r: HeaderFlags)
        ensures
            r@ == self@,
    {
        HeaderFlags {
            authoritative: self.authoritative,
            truncated: self.truncated,
            recursion_desired: self.recursion_desired,
            recursion_available: self.recursion_available,
            authentic_data: self.authentic_data,
            checking_disabled: self.checking_disabled,
        }
    }
}

/// The view of a list of EDNS options, each a code and its data.
pub open spec fn options_view(v: Vec<(u16, Vec<u8>)>) -> Seq<(u16, Seq<u8>)> {
    v@.map_values(|o: (u16, Vec<u8>)| (o.0, o.1@))
}

/// Appends copies of the options of `src` to `dst`.
pub fn append_options(dst: &mut Vec<(u16, Vec<u8>)>, src: &Vec<(u16, Vec<u8>)>)
    ensures
        options_view(*final(dst)) == options_view(*old(dst)) + options_view(*src),
{
    let ghost start = options_view(*dst);
    let mut i: usize = 0;
    while i < src.len()
        invariant
            i <= src.len(),
            options_view(*dst) == start + options_view(*src).subrange(0, i as int),
        decreases src.len() - i,
    {
        let ghost before = *dst;
        let o = (src[i].0, copy_bytes(&src[i].1));
        dst.push(o);
        i += 1;
        assert(options_view(*dst) =~= options_view(before).push((src@[i - 1].0, src@[i - 1].1@)));
        assert(options_view(*dst) =~= start + options_view(*src).subrange(0, i as int));
    }
    assert(options_view(*src).subrange(0, i as int) =~= options_view(*src));
}

/// An EDNS block: the extended response code bits, the version, the
/// DNSSEC-OK flag, the largest payload, and the options.
pub struct EdnsBlock {
    pub rcode_high: u8,
    pub version: u8,
    pub dnssec_ok: bool,
    pub max_payload: u16,
    pub options: Vec<(u16, Vec<u8>)>,
}

pub type EdnsView = (u8, u8, bool, u16, Seq<(u16, Seq<u8>)>);

impl View for EdnsBlock {
    type V = EdnsView;

    open spec fn view(&self) -> EdnsView {
        (self.rcode_high, self.version, self.dnssec_ok, self.max_payload, options_view(self.options))
    }
}

/// The payload size a fresh EDNS block announces.
pub const DEFAULT_MAX_PAYLOAD: u16 = 512;

/// A fresh EDNS block with the given DNSSEC-OK flag and no options.
pub open spec fn basic_edns(dnssec_ok: bool) -> EdnsView {
    (0, 0, dnssec_ok, DEFAULT_MAX_PAYLOAD, Seq::empty())
}

impl EdnsBlock {
    /// A fresh EDNS block with the given DNSSEC-OK flag and no options.
    pub fn basic(dnssec_ok: bool) -> (r: EdnsBlock)
        ensures
            r@ == basic_edns(dnssec_ok),
    {
        let r = EdnsBlock {
            rcode_high: 0,
            version: 0,
            dnssec_ok,
            max_payload: DEFAULT_MAX_PAYLOAD,
            options: Vec::new(),
        };
        assert(options_view(r.options) =~= Seq::<(u16, Seq<u8>)>::empty());
        r
    }

    /// A copy of this block.
    pub fn copy(&self) -> (r: EdnsBlock)
        ensures
            r@ == self@,
    {
        let mut options: Vec<(u16, Vec<u8>)> = Vec::new();
        assert(options_view(options) =~= Seq::<(u16, Seq<u8>)>::empty());
        append_options(&mut options, &self.options);
        assert(options_view(options) =~= options_view(self.options));
        EdnsBlock {
            rcode_high: self.rcode_high,
            version: self.version,
            dnssec_ok: self.dnssec_ok,
            max_payload: self.max_payload,
            options,
        }
    }
}

/// A copy of an optional EDNS block.
pub fn copy_edns(e: &Option<EdnsBlock>) -> (r: Option<EdnsBlock>)
    ensures
        edns_view(r) == edns_view(*e),
{
    match e {
        Some(b) => Some(b.copy()),
        None => None,
    }
}

/// The view of an optional EDNS block.
pub open spec fn edns_view(e: Option<EdnsBlock>) -> Option<EdnsView> {
    match e {
        Some(b) => Some(b@),
        None => None,
    }
}

/// The outcome of resolving one query: the header flags and EDNS block of
/// its response, and the answer it carries.
pub struct Resolved {
    pub flags: HeaderFlags,
    pub edns: Option<EdnsBlock>,
    pub answer: Answer,
}

pub type ResolvedView = (FlagsView, Option<EdnsView>, AnswerView);

impl View for Resolved {
    type V = ResolvedView;

    open spec fn view(&self) -> ResolvedView {
        (self.flags@, edns_view(self.edns), self.answer@)
    }
}

} // verus!
