//! The request that the launcher hands to the patch: versioned, without pointers, of fixed
//! layout.
use crate::bytes;
use crate::bytes::{push_u16, push_u32, read_u32};
use crate::utf16;
use vstd::prelude::*;

verus! {

pub const API_VERSION: u32 = 1;
pub const WAITING: u32 = 1;
pub const ACTIVE: u32 = 2;
pub const UNSUPPORTED: u32 = 3;
pub const FAILED: u32 = 4;
pub const DEACTIVATED: u32 = 5;
pub const BAD_REQUEST: u32 = 6;

/// Bytes of a request, and where its two strings start in them.
pub const REQUEST_SIZE: u32 = 2576;
pub const PATH_OFFSET: u32 = 16;
pub const MESSAGE_OFFSET: u32 = 2064;
pub const PATH_UNITS: usize = 1024;
pub const MESSAGE_UNITS: usize = 256;

#[derive(Clone, Copy, Debug)]
pub struct StartRequest {
    pub size: u32,
    pub version: u32,
    pub status: u32,
    pub reserved: u32,
    pub config_path: [u16; 1024],
    pub message: [u16; 256],
}

pub open spec fn zeros(n: nat) -> Seq<u16> {
    Seq::new(n, |i: int| 0u16)
}

impl Default for StartRequest {
    fn default() -> (r: Self)
        ensures
            r.size == REQUEST_SIZE,
            r.version == API_VERSION,
            r.status == 0,
            r.reserved == 0,
            r.config_path@ == zeros(1024),
            r.message@ == zeros(256),
    {
        let r = StartRequest {
            size: REQUEST_SIZE,
            version: API_VERSION,
            status: 0,
            reserved: 0,
            config_path: [0u16; 1024],
            message: [0u16; 256],
        };
        assert(r.config_path@ =~= zeros(1024));
        assert(r.message@ =~= zeros(256));
        r
    }
}

/// The units before the first zero, all of them if there is none.
pub open spec fn until_zero(u: Seq<u16>) -> Seq<u16>
    decreases u.len(),
{
    if u.len() == 0 || u[0] == 0 {
        seq![]
    } else {
        seq![u[0]] + until_zero(u.skip(1))
    }
}

/// A string without zeros reads back whole from a zero-filled field.
pub proof fn lemma_until_zero(u: Seq<u16>, padding: nat)
    requires
        forall|i: int| 0 <= i < u.len() ==> u[i] != 0,
    ensures
        until_zero(u + zeros(padding)) == u,
    decreases u.len(),
{
    let all = u + zeros(padding);
    if u.len() > 0 {
        assert(all.skip(1) =~= u.skip(1) + zeros(padding));
        lemma_until_zero(u.skip(1), padding);
        assert(seq![u[0]] + u.skip(1) =~= u);
    } else {
        assert(all =~= zeros(padding));
    }
}

/// How many units precede the first zero.
pub fn units_before_zero(u: &[u16]) -> (r: usize)
    ensures
        r <= u@.len(),
        u@.take(r as int) == until_zero(u@),
{
    let mut i: usize = 0;
    assert(u@.take(0) =~= Seq::<u16>::empty());
    assert(u@.skip(0) =~= u@);
    while i < u.len() && u[i] != 0
        invariant
            i <= u@.len(),
            u@.take(i as int) + until_zero(u@.skip(i as int)) == until_zero(u@),
        decreases u@.len() - i,
    {
        let ghost rest = u@.skip(i as int);
        assert(rest.skip(1) =~= u@.skip(i + 1));
        assert(u@.take(i + 1) + until_zero(u@.skip(i + 1)) =~= u@.take(i as int) + (seq![rest[0]]
            + until_zero(rest.skip(1))));
        i = i + 1;
    }
    assert(until_zero(u@.skip(i as int)) =~= Seq::<u16>::empty());
    assert(u@.take(i as int) + Seq::<u16>::empty() =~= u@.take(i as int));
    i
}

/// The message field for `text`: its first 255 units, then zeros.
pub open spec fn message_units(text: Seq<char>) -> Seq<u16> {
    let units = utf16::encoded(text);
    Seq::new(256, |i: int| if i < 255 && i < units.len() { units[i] } else { 0u16 })
}

/// The path field for `units`.
pub open spec fn path_units(units: Seq<u16>) -> Seq<u16> {
    Seq::new(1024, |i: int| if i < units.len() { units[i] } else { 0u16 })
}

impl StartRequest {
    /// Everything but the message is as in `other`.
    pub open spec fn same_but_reply(self, other: Self) -> bool {
        &&& self.size == other.size
        &&& self.version == other.version
        &&& self.reserved == other.reserved
        &&& self.config_path == other.config_path
    }

    /// Stores an outcome with a message, cut to what the field holds.
    pub fn reply(&mut self, status: u32, message: &str)
        ensures
            final(self).status == status,
            final(self).message@ == message_units(message@),
            final(self).same_but_reply(*old(self)),
    {
        self.status = status;
        let units: Vec<u16> = utf16::encode(message);
        let mut field: [u16; 256] = [0u16; 256];
        let mut i: usize = 0;
        while i < 255 && i < units.len()
            invariant
                i <= 255,
                i <= units@.len(),
                forall|k: int| 0 <= k < i ==> field@[k] == units@[k],
                forall|k: int| i <= k < 256 ==> field@[k] == 0,
            decreases 255 - i,
        {
            field[i] = units[i];
            i = i + 1;
        }
        self.message = field;
        assert(self.message@ =~= message_units(message@));
    }

    /// The message, up to its first zero unit.
    pub fn text(&self) -> (r: String)
        ensures
            r@ == utf16::decoded(until_zero(self.message@)),
    {
        let units: &[u16] = vstd::array::array_as_slice(&self.message);
        let n: usize = units_before_zero(units);
        let head: &[u16] = vstd::slice::slice_subrange(units, 0, n);
        assert(head@ =~= units@.take(n as int));
        utf16::decode(head)
    }

    /// A message that fits and holds no NUL reads back as it was given.
    pub proof fn lemma_text_of_reply(text: Seq<char>)
        requires
            utf16::encoded(text).len() <= 255,
            forall|i: int| 0 <= i < text.len() ==> text[i] as int != 0,
        ensures
            utf16::decoded(until_zero(message_units(text))) == text,
    {
        let units = utf16::encoded(text);
        utf16::lemma_no_zero_unit(text);
        lemma_until_zero(units, (256 - units.len()) as nat);
        assert(message_units(text) =~= units + zeros((256 - units.len()) as nat));
        utf16::lemma_round_trip(text);
    }

    /// A stored message always ends inside the field.
    pub proof fn lemma_reply_terminated(text: Seq<char>)
        ensures
            message_units(text).len() == 256,
            message_units(text)[255] == 0,
    {
    }
}

/// Units in memory, each with its low byte first.
pub open spec fn units_in_memory(u: Seq<u16>) -> Seq<u8> {
    Seq::new(
        2 * u.len(),
        |i: int|
            if i % 2 == 0 {
                (u[i / 2] % 0x100) as u8
            } else {
                (u[i / 2] / 0x100) as u8
            },
    )
}

fn push_units(out: &mut Vec<u8>, u: &[u16])
    ensures
        final(out)@ == old(out)@ + units_in_memory(u@),
{
    let mut i: usize = 0;
    assert(old(out)@ + units_in_memory(u@.take(0)) =~= old(out)@);
    while i < u.len()
        invariant
            i <= u@.len(),
            out@ == old(out)@ + units_in_memory(u@.take(i as int)),
        decreases u@.len() - i,
    {
        push_u16(out, u[i]);
        assert(units_in_memory(u@.take(i + 1)) =~= units_in_memory(u@.take(i as int))
            + bytes::le16(u@[i as int]));
        assert(out@ =~= old(out)@ + units_in_memory(u@.take(i + 1)));
        i = i + 1;
    }
    assert(u@.take(i as int) =~= u@);
}

fn read_units(d: &[u8], at: usize, n: usize) -> (r: Vec<u16>)
    requires
        at + 2 * n <= d@.len(),
    ensures
        r@.len() == n,
        units_in_memory(r@) == d@.subrange(at as int, at + 2 * n),
{
    let mut out: Vec<u16> = Vec::new();
    let total: usize = d.len();
    let mut i: usize = 0;
    while i < n
        invariant
            i <= n,
            d@.len() == total,
            at + 2 * n <= total,
            out@.len() == i,
            forall|k: int| 0 <= k < i ==> #[trigger] out@[k] == d@[at + 2 * k] + 0x100 * d@[at + 2 * k
                + 1],
        decreases n - i,
    {
        out.push(d[at + 2 * i] as u16 + 0x100 * d[at + 2 * i + 1] as u16);
        i = i + 1;
    }
    assert forall|k: int| 0 <= k < 2 * n implies units_in_memory(out@)[k] == d@.subrange(
        at as int,
        at + 2 * n,
    )[k] by {
        assert(out@[k / 2] == d@[at + 2 * (k / 2)] + 0x100 * d@[at + 2 * (k / 2) + 1]);
    }
    assert(units_in_memory(out@) =~= d@.subrange(at as int, at + 2 * n));
    out
}

proof fn lemma_unit_halves(x: u16, y: u16)
    requires
        (x % 0x100) as u8 == (y % 0x100) as u8,
        (x / 0x100) as u8 == (y / 0x100) as u8,
    ensures
        x == y,
{
}

proof fn lemma_units_injective(a: Seq<u16>, b: Seq<u16>)
    requires
        a.len() == b.len(),
        units_in_memory(a) == units_in_memory(b),
    ensures
        a == b,
{
    assert forall|i: int| 0 <= i < a.len() implies a[i] == b[i] by {
        let k = 2 * i;
        assert(k / 2 == i && k % 2 == 0);
        assert(units_in_memory(a)[k] == (a[k / 2] % 0x100) as u8);
        assert(units_in_memory(b)[k] == (b[k / 2] % 0x100) as u8);
        assert((k + 1) / 2 == i && (k + 1) % 2 == 1);
        assert(units_in_memory(a)[k + 1] == (a[(k + 1) / 2] / 0x100) as u8);
        assert(units_in_memory(b)[k + 1] == (b[(k + 1) / 2] / 0x100) as u8);
        lemma_unit_halves(a[i], b[i]);
    }
    assert(a =~= b);
}

proof fn lemma_le32_parts(a: u8, b: u8, c: u8, e: u8)
    ensures
        bytes::le32((a + 0x100 * b + 0x1_0000 * c + 0x100_0000 * e) as u32) == seq![a, b, c, e],
{
    let v = a + 0x100 * b + 0x1_0000 * c + 0x100_0000 * e;
    assert(v / 0x100_0000 == e);
    assert(v / 0x1_0000 == c + 0x100 * e);
    assert(v / 0x100 == b + 0x100 * c + 0x1_0000 * e);
    assert(bytes::le32(v as u32) =~= seq![a, b, c, e]);
}

proof fn lemma_le32_of_read(d: Seq<u8>, at: int)
    requires
        0 <= at,
        at + 4 <= d.len(),
    ensures
        bytes::le32(bytes::u32_at(d, at)->Some_0) == d.subrange(at, at + 4),
{
    lemma_le32_parts(d[at], d[at + 1], d[at + 2], d[at + 3]);
    assert(seq![d[at], d[at + 1], d[at + 2], d[at + 3]] =~= d.subrange(at, at + 4));
}

proof fn lemma_fields_cover(d: Seq<u8>)
    requires
        d.len() == REQUEST_SIZE,
    ensures
        d.subrange(0, 4) + d.subrange(4, 8) + d.subrange(8, 12) + d.subrange(12, 16) + d.subrange(
            16,
            2064,
        ) + d.subrange(2064, 2576) == d,
{
    assert(d.subrange(0, 4) + d.subrange(4, 8) + d.subrange(8, 12) + d.subrange(12, 16)
        + d.subrange(16, 2064) + d.subrange(2064, 2576) =~= d);
}

impl StartRequest {
    /// The request as it lies in memory.
    pub open spec fn layout(self) -> Seq<u8> {
        bytes::le32(self.size) + bytes::le32(self.version) + bytes::le32(self.status) + bytes::le32(
            self.reserved,
        ) + units_in_memory(self.config_path@) + units_in_memory(self.message@)
    }

    /// The bytes to write into the game's memory.
    pub fn to_bytes(&self) -> (r: Vec<u8>)
        ensures
            r@ == self.layout(),
            r@.len() == REQUEST_SIZE,
    {
        let mut out: Vec<u8> = Vec::new();
        push_u32(&mut out, self.size);
        push_u32(&mut out, self.version);
        push_u32(&mut out, self.status);
        push_u32(&mut out, self.reserved);
        push_units(&mut out, vstd::array::array_as_slice(&self.config_path));
        push_units(&mut out, vstd::array::array_as_slice(&self.message));
        assert(out@ =~= self.layout());
        out
    }

    /// The request that lies in `d`, if `d` has the length of one.
    pub fn from_bytes(d: &[u8]) -> (r: Option<Self>)
        ensures
            r is Some <==> d@.len() == REQUEST_SIZE,
            r is Some ==> r->Some_0.layout() == d@,
    {
        if d.len() != 2576 {
            return None;
        }
        let size: u32 = read_u32(d, 0)?;
        let version: u32 = read_u32(d, 4)?;
        let status: u32 = read_u32(d, 8)?;
        let reserved: u32 = read_u32(d, 12)?;
        let path: Vec<u16> = read_units(d, 16, 1024);
        let text: Vec<u16> = read_units(d, 2064, 256);
        let mut config_path: [u16; 1024] = [0u16; 1024];
        let mut i: usize = 0;
        while i < 1024
            invariant
                i <= 1024,
                path@.len() == 1024,
                forall|k: int| 0 <= k < i ==> config_path@[k] == path@[k],
            decreases 1024 - i,
        {
            config_path[i] = path[i];
            i = i + 1;
        }
        assert(config_path@ =~= path@);
        let mut message: [u16; 256] = [0u16; 256];
        let mut j: usize = 0;
        while j < 256
            invariant
                j <= 256,
                text@.len() == 256,
                forall|k: int| 0 <= k < j ==> message@[k] == text@[k],
            decreases 256 - j,
        {
            message[j] = text[j];
            j = j + 1;
        }
        assert(message@ =~= text@);
        let r = StartRequest { size, version, status, reserved, config_path, message };
        proof {
            lemma_le32_of_read(d@, 0);
            lemma_le32_of_read(d@, 4);
            lemma_le32_of_read(d@, 8);
            lemma_le32_of_read(d@, 12);
            lemma_fields_cover(d@);
        }
        Some(r)
    }

    /// Two requests with the same bytes are the same request, so that `from_bytes` undoes
    /// `to_bytes`.
    pub proof fn lemma_layout_injective(a: Self, b: Self)
        requires
            a.layout() == b.layout(),
        ensures
            a == b,
    {
        let x = a.layout();
        let y = b.layout();
        assert(x.subrange(0, 4) =~= bytes::le32(a.size));
        assert(y.subrange(0, 4) =~= bytes::le32(b.size));
        assert(x.subrange(4, 8) =~= bytes::le32(a.version));
        assert(y.subrange(4, 8) =~= bytes::le32(b.version));
        assert(x.subrange(8, 12) =~= bytes::le32(a.status));
        assert(y.subrange(8, 12) =~= bytes::le32(b.status));
        assert(x.subrange(12, 16) =~= bytes::le32(a.reserved));
        assert(y.subrange(12, 16) =~= bytes::le32(b.reserved));
        assert(x.subrange(16, 2064) =~= units_in_memory(a.config_path@));
        assert(y.subrange(16, 2064) =~= units_in_memory(b.config_path@));
        assert(x.subrange(2064, 2576) =~= units_in_memory(a.message@));
        assert(y.subrange(2064, 2576) =~= units_in_memory(b.message@));
        lemma_units_injective(a.config_path@, b.config_path@);
        lemma_units_injective(a.message@, b.message@);
        lemma_le32_injective(a.size, b.size);
        lemma_le32_injective(a.version, b.version);
        lemma_le32_injective(a.status, b.status);
        lemma_le32_injective(a.reserved, b.reserved);
        assert(a.config_path =~= b.config_path);
        assert(a.message =~= b.message);
    }
}

proof fn lemma_le32_injective(a: u32, b: u32)
    requires
        bytes::le32(a) == bytes::le32(b),
    ensures
        a == b,
{
    bytes::lemma_le32_round_trip(a, seq![], seq![]);
    bytes::lemma_le32_round_trip(b, seq![], seq![]);
}

/// Whether `request` can be answered: this layout, this version, and a path that ends.
pub open spec fn acceptable(request: StartRequest) -> bool {
    &&& request.size == REQUEST_SIZE
    &&& request.version == API_VERSION
    &&& until_zero(request.config_path@).len() < 1024
}

/// A request was looked at.
pub open spec fn opened(memory: Option<&[u8]>, r: Result<(StartRequest, usize), u32>) -> bool {
    match r {
        Ok((request, length)) => {
            &&& memory is Some
            &&& request.layout() == memory->Some_0@
            &&& acceptable(request)
            &&& length == until_zero(request.config_path@).len()
        },
        Err(status) => {
            &&& status == BAD_REQUEST
            &&& memory is Some ==> forall|request: StartRequest|
                #[trigger] request.layout() == memory->Some_0@ ==> !acceptable(request)
        },
    }
}

/// Takes the request that lies in readable memory, with the length of its path; anything that
/// cannot be answered there is refused with the status alone.
pub fn open_request(memory: Option<&[u8]>) -> (r: Result<(StartRequest, usize), u32>)
    ensures
        opened(memory, r),
{
    let d: &[u8] = match memory {
        Some(d) => d,
        None => return Err(BAD_REQUEST),
    };
    let request: StartRequest = match StartRequest::from_bytes(d) {
        Some(request) => request,
        None => return Err(BAD_REQUEST),
    };
    let path: &[u16] = vstd::array::array_as_slice(&request.config_path);
    let length: usize = units_before_zero(path);
    assert(length == until_zero(path@).len());
    if request.size != REQUEST_SIZE || request.version != API_VERSION || length == 1024 {
        assert forall|other: StartRequest| #[trigger] other.layout() == d@ implies !acceptable(
            other,
        ) by {
            StartRequest::lemma_layout_injective(other, request);
        }
        return Err(BAD_REQUEST);
    }
    Ok((request, length))
}

/// A request was answered.
pub open spec fn answered(
    before: StartRequest,
    after: StartRequest,
    outcome: Option<(u32, String)>,
    status: u32,
) -> bool {
    &&& after.status == status
    &&& after.same_but_reply(before)
    &&& match outcome {
        Some((code, text)) => status == code && after.message@ == message_units(text@),
        None => status == BAD_REQUEST && after.message@ == message_units(
            "An absolute configuration path is required"@,
        ),
    }
}

/// Writes the outcome into the request; without one the path was not absolute.
pub fn answer(request: &mut StartRequest, outcome: Option<(u32, String)>) -> (status: u32)
    ensures
        answered(*old(request), *final(request), outcome, status),
{
    match outcome {
        Some((code, text)) => {
            request.reply(code, text.as_str());
            code
        },
        None => {
            request.reply(BAD_REQUEST, "An absolute configuration path is required");
            BAD_REQUEST
        },
    }
}

} // verus!
