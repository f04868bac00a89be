use vstd::prelude::*;
use crate::environment::BME688SensorReport;
use crate::flags::{flag_bits, flags_from_bits, DeviceStatus, StatusFlags};
use crate::protocol::{Command, DevAddr, Message, MessageView, Transmission};
use crate::readings::{MoistureReading, MoistureSensorReport, Readings, readings_of, MAX_CHANNELS};

verus! {

// The radio frame format. Every integer is little-endian and of fixed width;
// a frame is the sender's address (two bytes) and then the payload, whose first
// byte names its variant:
//
//   message  0  n, then n times (edge count: 2 bytes, duration: 4 bytes)
//            1  temperature, pressure, humidity, gas resistance (4 bytes each)
//            2  flag byte
//   command  0  flag byte
//            1  (nothing more)
//
// A parser reads a frame from the start of its input and ignores what follows.

/// The largest frame the radio carries.
pub const MAX_FRAME_LEN: usize = 255;

pub const TAG_MOISTURE: u8 = 0;

pub const TAG_ENVIRONMENT: u8 = 1;

pub const TAG_STATUS: u8 = 2;

pub const TAG_SYNC_FLAGS: u8 = 0;

pub const TAG_RESET: u8 = 1;

pub open spec fn le16(x: u16) -> Seq<u8> {
    seq![(x % 256) as u8, (x / 256) as u8]
}

pub open spec fn le32(x: u32) -> Seq<u8> {
    seq![(x % 256) as u8, ((x / 256) % 256) as u8, ((x / 65536) % 256) as u8, (x / 16777216) as u8]
}

/// The two bytes at `i`, read as a little-endian `u16`.
pub open spec fn u16_at(b: Seq<u8>, i: int) -> u16 {
    (b[i] as int + 256 * b[i + 1] as int) as u16
}

/// The four bytes at `i`, read as a little-endian `u32`.
pub open spec fn u32_at(b: Seq<u8>, i: int) -> u32 {
    (b[i] as int + 256 * b[i + 1] as int + 65536 * b[i + 2] as int + 16777216 * b[
        i + 3
    ] as int) as u32
}

pub open spec fn reading_bytes(r: MoistureReading) -> Seq<u8> {
    le16(r.clocks) + le32(r.duration_ms)
}

pub open spec fn readings_bytes(s: Seq<MoistureReading>) -> Seq<u8>
    decreases s.len(),
{
    if s.len() == 0 {
        Seq::empty()
    } else {
        readings_bytes(s.drop_last()) + reading_bytes(s.last())
    }
}

pub open spec fn reading_at(b: Seq<u8>, i: int) -> MoistureReading {
    MoistureReading { clocks: u16_at(b, i), duration_ms: u32_at(b, i + 2) }
}

pub open spec fn env_bytes(r: BME688SensorReport) -> Seq<u8> {
    le32(r.temp as u32) + le32(r.pressure as u32) + le32(r.humidity as u32) + le32(r.gas_resistance)
}

pub open spec fn env_at(b: Seq<u8>, i: int) -> BME688SensorReport {
    BME688SensorReport {
        temp: u32_at(b, i) as i32,
        pressure: u32_at(b, i + 4) as i32,
        humidity: u32_at(b, i + 8) as i32,
        gas_resistance: u32_at(b, i + 12),
    }
}

/// A message that a frame can carry: at most `MAX_CHANNELS` readings.
pub open spec fn message_view_wf(m: MessageView) -> bool {
    m matches MessageView::MoistureReport(s) ==> s.len() <= MAX_CHANNELS
}

pub open spec fn message_body(m: MessageView) -> Seq<u8> {
    match m {
        MessageView::MoistureReport(s) => seq![TAG_MOISTURE, s.len() as u8] + readings_bytes(s),
        MessageView::BME688Report(r) => seq![TAG_ENVIRONMENT] + env_bytes(r),
        MessageView::StatusUpdate(st) => seq![TAG_STATUS, flag_bits(st.flags)],
    }
}

/// The frame of a message sent from `src`.
pub open spec fn message_frame(src: DevAddr, m: MessageView) -> Seq<u8> {
    le16(src.0) + message_body(m)
}

/// The sender and message of the frame at the start of `b`, if one is there.
pub open spec fn parse_message_frame(b: Seq<u8>) -> Option<(DevAddr, MessageView)> {
    if b.len() < 3 {
        None
    } else {
        let src = DevAddr(u16_at(b, 0));
        let tag = b[2];
        if tag == TAG_MOISTURE {
            if b.len() < 4 {
                None
            } else {
                let n = b[3] as int;
                if n > MAX_CHANNELS || b.len() < 4 + 6 * n {
                    None
                } else {
                    Some(
                        (
                            src,
                            MessageView::MoistureReport(
                                Seq::new(n as nat, |k: int| reading_at(b, 4 + 6 * k)),
                            ),
                        ),
                    )
                }
            }
        } else if tag == TAG_ENVIRONMENT {
            if b.len() < 19 {
                None
            } else {
                Some((src, MessageView::BME688Report(env_at(b, 3))))
            }
        } else if tag == TAG_STATUS {
            if b.len() < 4 {
                None
            } else {
                match flags_from_bits(b[3]) {
                    Some(f) => Some((src, MessageView::StatusUpdate(DeviceStatus { flags: f }))),
                    None => None,
                }
            }
        } else {
            None
        }
    }
}

/// The frame of a command.
pub open spec fn command_frame(t: Transmission<Command>) -> Seq<u8> {
    le16(t.src.0) + match t.msg {
        Command::SyncFlags(f) => seq![TAG_SYNC_FLAGS, flag_bits(f)],
        Command::Reset => seq![TAG_RESET],
    }
}

/// The command frame at the start of `b`, if one is there.
pub open spec fn parse_command_frame(b: Seq<u8>) -> Option<Transmission<Command>> {
    if b.len() < 3 {
        None
    } else {
        let src = DevAddr(u16_at(b, 0));
        if b[2] == TAG_SYNC_FLAGS {
            if b.len() < 4 {
                None
            } else {
                match flags_from_bits(b[3]) {
                    Some(f) => Some(Transmission { src, msg: Command::SyncFlags(f) }),
                    None => None,
                }
            }
        } else if b[2] == TAG_RESET {
            Some(Transmission { src, msg: Command::Reset })
        } else {
            None
        }
    }
}

proof fn lemma_le16_at(b: Seq<u8>, i: int, x: u16)
    requires
        0 <= i,
        i + 2 <= b.len(),
        b.subrange(i, i + 2) == le16(x),
    ensures
        u16_at(b, i) == x,
{
    assert(b[i] == b.subrange(i, i + 2)[0]);
    assert(b[i + 1] == b.subrange(i, i + 2)[1]);
}

proof fn lemma_le32_at(b: Seq<u8>, i: int, x: u32)
    requires
        0 <= i,
        i + 4 <= b.len(),
        b.subrange(i, i + 4) == le32(x),
    ensures
        u32_at(b, i) == x,
{
    assert(b[i] == b.subrange(i, i + 4)[0]);
    assert(b[i + 1] == b.subrange(i, i + 4)[1]);
    assert(b[i + 2] == b.subrange(i, i + 4)[2]);
    assert(b[i + 3] == b.subrange(i, i + 4)[3]);
    let xi = x as int;
    assert(xi % 256 + 256 * ((xi / 256) % 256) + 65536 * ((xi / 65536) % 256) + 16777216 * (xi
        / 16777216) == xi) by {
        vstd::arithmetic::div_mod::lemma_fundamental_div_mod(xi, 256);
        vstd::arithmetic::div_mod::lemma_fundamental_div_mod(xi / 256, 256);
        vstd::arithmetic::div_mod::lemma_fundamental_div_mod(xi / 65536, 256);
        vstd::arithmetic::div_mod::lemma_div_denominator(xi, 256, 256);
        vstd::arithmetic::div_mod::lemma_div_denominator(xi, 65536, 256);
    }
}

proof fn lemma_reading_at(b: Seq<u8>, i: int, r: MoistureReading)
    requires
        0 <= i,
        i + 6 <= b.len(),
        b.subrange(i, i + 6) == reading_bytes(r),
    ensures
        reading_at(b, i) == r,
{
    assert(b.subrange(i, i + 2) =~= b.subrange(i, i + 6).subrange(0, 2));
    assert(b.subrange(i + 2, i + 6) =~= b.subrange(i, i + 6).subrange(2, 6));
    assert(reading_bytes(r).subrange(0, 2) =~= le16(r.clocks));
    assert(reading_bytes(r).subrange(2, 6) =~= le32(r.duration_ms));
    lemma_le16_at(b, i, r.clocks);
    lemma_le32_at(b, i + 2, r.duration_ms);
}

proof fn lemma_i32_as_u32(x: i32)
    ensures
        (x as u32) as i32 == x,
{
    assert((x as u32) as i32 == x) by (bit_vector);
}

proof fn lemma_env_at(b: Seq<u8>, i: int, r: BME688SensorReport)
    requires
        0 <= i,
        i + 16 <= b.len(),
        b.subrange(i, i + 16) == env_bytes(r),
    ensures
        env_at(b, i) == r,
{
    let e = env_bytes(r);
    assert(b.subrange(i, i + 4) =~= e.subrange(0, 4));
    assert(b.subrange(i + 4, i + 8) =~= e.subrange(4, 8));
    assert(b.subrange(i + 8, i + 12) =~= e.subrange(8, 12));
    assert(b.subrange(i + 12, i + 16) =~= e.subrange(12, 16));
    assert(e.subrange(0, 4) =~= le32(r.temp as u32));
    assert(e.subrange(4, 8) =~= le32(r.pressure as u32));
    assert(e.subrange(8, 12) =~= le32(r.humidity as u32));
    assert(e.subrange(12, 16) =~= le32(r.gas_resistance));
    lemma_le32_at(b, i, r.temp as u32);
    lemma_le32_at(b, i + 4, r.pressure as u32);
    lemma_le32_at(b, i + 8, r.humidity as u32);
    lemma_le32_at(b, i + 12, r.gas_resistance);
    lemma_i32_as_u32(r.temp);
    lemma_i32_as_u32(r.pressure);
    lemma_i32_as_u32(r.humidity);
}

/// The bytes of the readings are six per reading, reading `k` at `6 * k`.
proof fn lemma_readings_bytes(s: Seq<MoistureReading>)
    ensures
        readings_bytes(s).len() == 6 * s.len(),
        forall|k: int|
            0 <= k < s.len() ==> readings_bytes(s).subrange(6 * k, 6 * k + 6) == reading_bytes(
                #[trigger] s[k],
            ),
    decreases s.len(),
{
    if s.len() > 0 {
        let init = s.drop_last();
        lemma_readings_bytes(init);
        let whole = readings_bytes(s);
        assert(whole == readings_bytes(init) + reading_bytes(s.last()));
        assert forall|k: int| 0 <= k < s.len() implies whole.subrange(6 * k, 6 * k + 6)
            == reading_bytes(#[trigger] s[k]) by {
            if k < s.len() - 1 {
                assert(init[k] == s[k]);
                assert(whole.subrange(6 * k, 6 * k + 6) =~= readings_bytes(init).subrange(
                    6 * k,
                    6 * k + 6,
                ));
            } else {
                assert(whole.subrange(6 * k, 6 * k + 6) =~= reading_bytes(s.last()));
            }
        }
    }
}

proof fn lemma_u16_at_le16(b: Seq<u8>, i: int)
    requires
        0 <= i,
        i + 2 <= b.len(),
    ensures
        le16(u16_at(b, i)) == b.subrange(i, i + 2),
{
    let b0 = b[i] as int;
    let b1 = b[i + 1] as int;
    let x = b0 + 256 * b1;
    assert(x % 256 == b0 && x / 256 == b1) by {
        vstd::arithmetic::div_mod::lemma_fundamental_div_mod_converse(x, 256, b1, b0);
    }
    assert(le16(u16_at(b, i)) =~= b.subrange(i, i + 2));
}

proof fn lemma_u32_at_le32(b: Seq<u8>, i: int)
    requires
        0 <= i,
        i + 4 <= b.len(),
    ensures
        le32(u32_at(b, i)) == b.subrange(i, i + 4),
{
    let b0 = b[i] as int;
    let b1 = b[i + 1] as int;
    let b2 = b[i + 2] as int;
    let b3 = b[i + 3] as int;
    let x = b0 + 256 * b1 + 65536 * b2 + 16777216 * b3;
    let hi1 = b1 + 256 * b2 + 65536 * b3;
    let hi2 = b2 + 256 * b3;
    assert(x % 256 == b0 && x / 256 == hi1) by {
        vstd::arithmetic::div_mod::lemma_fundamental_div_mod_converse(x, 256, hi1, b0);
    }
    assert(hi1 % 256 == b1 && hi1 / 256 == hi2) by {
        vstd::arithmetic::div_mod::lemma_fundamental_div_mod_converse(hi1, 256, hi2, b1);
    }
    assert(hi2 % 256 == b2 && hi2 / 256 == b3) by {
        vstd::arithmetic::div_mod::lemma_fundamental_div_mod_converse(hi2, 256, b3, b2);
    }
    assert(x / 65536 == hi2) by {
        vstd::arithmetic::div_mod::lemma_div_denominator(x, 256, 256);
    }
    assert(x / 16777216 == b3) by {
        vstd::arithmetic::div_mod::lemma_div_denominator(x, 65536, 256);
    }
    assert(le32(u32_at(b, i)) =~= b.subrange(i, i + 4));
}

proof fn lemma_reading_at_bytes(b: Seq<u8>, i: int)
    requires
        0 <= i,
        i + 6 <= b.len(),
    ensures
        reading_bytes(reading_at(b, i)) == b.subrange(i, i + 6),
{
    lemma_u16_at_le16(b, i);
    lemma_u32_at_le32(b, i + 2);
    assert(reading_bytes(reading_at(b, i)) =~= b.subrange(i, i + 6));
}

proof fn lemma_parsed_readings_bytes(b: Seq<u8>, n: nat)
    requires
        4 + 6 * n <= b.len(),
    ensures
        readings_bytes(Seq::new(n, |k: int| reading_at(b, 4 + 6 * k))) == b.subrange(4, 4 + 6 * n as int),
    decreases n,
{
    let s = Seq::new(n, |k: int| reading_at(b, 4 + 6 * k));
    if n == 0 {
        assert(b.subrange(4, 4) =~= Seq::<u8>::empty());
    } else {
        let m = (n - 1) as nat;
        lemma_parsed_readings_bytes(b, m);
        assert(s.drop_last() =~= Seq::new(m, |k: int| reading_at(b, 4 + 6 * k)));
        let mi = m as int;
        let ni = n as int;
        lemma_reading_at_bytes(b, 4 + 6 * mi);
        assert(b.subrange(4, 4 + 6 * ni) =~= b.subrange(4, 4 + 6 * mi) + b.subrange(
            4 + 6 * mi,
            4 + 6 * ni,
        ));
    }
}

proof fn lemma_u32_as_i32(x: u32)
    ensures
        (x as i32) as u32 == x,
{
    assert((x as i32) as u32 == x) by (bit_vector);
}

/// A frame is parsed only from its own encoding: what the parser reads from
/// the start of `b` encodes back to exactly the bytes it was read from.
pub proof fn lemma_message_parse_canonical(b: Seq<u8>)
    ensures
        parse_message_frame(b) matches Some((src, m)) ==> {
            &&& message_view_wf(m)
            &&& message_frame(src, m).len() <= b.len()
            &&& message_frame(src, m) == b.subrange(0, message_frame(src, m).len() as int)
        },
{
    if let Some((src, m)) = parse_message_frame(b) {
        lemma_u16_at_le16(b, 0);
        let f = message_frame(src, m);
        match m {
            MessageView::MoistureReport(s) => {
                let n = b[3] as nat;
                lemma_parsed_readings_bytes(b, n);
                assert(f =~= b.subrange(0, 2) + seq![b[2], b[3]] + b.subrange(4, 4 + 6 * n as int));
                assert(f =~= b.subrange(0, f.len() as int));
            },
            MessageView::BME688Report(r) => {
                lemma_u32_at_le32(b, 3);
                lemma_u32_at_le32(b, 7);
                lemma_u32_at_le32(b, 11);
                lemma_u32_at_le32(b, 15);
                lemma_u32_as_i32(u32_at(b, 3));
                lemma_u32_as_i32(u32_at(b, 7));
                lemma_u32_as_i32(u32_at(b, 11));
                assert(f =~= b.subrange(0, 19));
            },
            MessageView::StatusUpdate(st) => {
                assert(flag_bits(st.flags) == b[3]);
                assert(f =~= b.subrange(0, 4));
            },
        }
    }
}

/// A command frame is parsed only from its own encoding.
pub proof fn lemma_command_parse_canonical(b: Seq<u8>)
    ensures
        parse_command_frame(b) matches Some(t) ==> {
            &&& command_frame(t).len() <= b.len()
            &&& command_frame(t) == b.subrange(0, command_frame(t).len() as int)
        },
{
    if let Some(t) = parse_command_frame(b) {
        lemma_u16_at_le16(b, 0);
        match t.msg {
            Command::SyncFlags(f) => {
                assert(flag_bits(f) == b[3]);
                assert(command_frame(t) =~= b.subrange(0, 4));
            },
            Command::Reset => {
                assert(command_frame(t) =~= b.subrange(0, 3));
            },
        }
    }
}

/// A message frame, read back from the start of any input that begins with
/// it, gives the sender and the message that were encoded.
pub proof fn lemma_message_round_trip(src: DevAddr, m: MessageView, rest: Seq<u8>)
    requires
        message_view_wf(m),
    ensures
        parse_message_frame(message_frame(src, m) + rest) == Some((src, m)),
{
    let b = message_frame(src, m) + rest;
    assert(b.subrange(0, 2) =~= le16(src.0));
    lemma_le16_at(b, 0, src.0);
    match m {
        MessageView::MoistureReport(s) => {
            lemma_readings_bytes(s);
            let n = s.len();
            assert(b[2] == TAG_MOISTURE);
            assert(b[3] == n as u8);
            let parsed = Seq::new(n as nat, |k: int| reading_at(b, 4 + 6 * k));
            assert forall|k: int| 0 <= k < n implies parsed[k] == s[k] by {
                assert(b.subrange(4 + 6 * k, 4 + 6 * k + 6) =~= readings_bytes(s).subrange(
                    6 * k,
                    6 * k + 6,
                ));
                lemma_reading_at(b, 4 + 6 * k, s[k]);
            }
            assert(parsed =~= s);
        },
        MessageView::BME688Report(r) => {
            assert(b[2] == TAG_ENVIRONMENT);
            assert(b.subrange(3, 19) =~= env_bytes(r));
            lemma_env_at(b, 3, r);
        },
        MessageView::StatusUpdate(st) => {
            assert(b[2] == TAG_STATUS);
            assert(b[3] == flag_bits(st.flags));
            crate::flags::lemma_flag_bits_round_trip(st.flags);
        },
    }
}

/// A command frame, read back from the start of any input that begins with
/// it, gives the transmission that was encoded.
pub proof fn lemma_command_round_trip(t: Transmission<Command>, rest: Seq<u8>)
    ensures
        parse_command_frame(command_frame(t) + rest) == Some(t),
{
    let b = command_frame(t) + rest;
    assert(b.subrange(0, 2) =~= le16(t.src.0));
    lemma_le16_at(b, 0, t.src.0);
    match t.msg {
        Command::SyncFlags(f) => {
            assert(b[2] == TAG_SYNC_FLAGS);
            assert(b[3] == flag_bits(f));
            crate::flags::lemma_flag_bits_round_trip(f);
        },
        Command::Reset => {
            assert(b[2] == TAG_RESET);
        },
    }
}

fn push_le16(out: &mut Vec<u8>, x: u16)
    ensures
        final(out)@ == old(out)@ + le16(x),
{
    out.push((x % 256) as u8);
    out.push((x / 256) as u8);
    proof {
        assert(final(out)@ =~= old(out)@ + le16(x));
    }
}

fn push_le32(out: &mut Vec<u8>, x: u32)
    ensures
        final(out)@ == old(out)@ + le32(x),
{
    out.push((x % 256) as u8);
    out.push(((x / 256) % 256) as u8);
    out.push(((x / 65536) % 256) as u8);
    out.push((x / 16777216) as u8);
    proof {
        assert(final(out)@ =~= old(out)@ + le32(x));
    }
}

fn read_u16(b: &[u8], i: usize) -> (r: u16)
    requires
        i + 2 <= b@.len(),
    ensures
        r == u16_at(b@, i as int),
{
    b[i] as u16 + 256 * (b[i + 1] as u16)
}

fn read_u32(b: &[u8], i: usize) -> (r: u32)
    requires
        i + 4 <= b@.len(),
    ensures
        r == u32_at(b@, i as int),
{
    b[i] as u32 + 256 * (b[i + 1] as u32) + 65536 * (b[i + 2] as u32) + 16777216 * (b[i
        + 3] as u32)
}

fn encode_readings(out: &mut Vec<u8>, report: &MoistureSensorReport) -> (n: usize)
    ensures
        n == report@.len(),
        n <= MAX_CHANNELS,
        final(out)@ == old(out)@ + seq![n as u8] + readings_bytes(report@),
{
    let s = report.moisture.to_vec();
    let n = report.moisture.len();
    out.push(n as u8);
    let ghost head = out@;
    let mut i: usize = 0;
    while i < s.len()
        invariant
            s@ == report@,
            i <= s@.len(),
            out@ == head + readings_bytes(s@.subrange(0, i as int)),
        decreases s@.len() - i,
    {
        let r = s[i];
        push_le16(out, r.clocks);
        push_le32(out, r.duration_ms);
        proof {
            let next = s@.subrange(0, i + 1);
            assert(next.drop_last() =~= s@.subrange(0, i as int));
            assert(next.last() == r);
            assert(out@ =~= head + readings_bytes(next));
        }
        i = i + 1;
    }
    proof {
        assert(s@.subrange(0, s@.len() as int) =~= s@);
        assert(head =~= old(out)@ + seq![n as u8]);
    }
    n
}

fn encode_environment(out: &mut Vec<u8>, r: &BME688SensorReport)
    ensures
        final(out)@ == old(out)@ + env_bytes(*r),
{
    push_le32(out, r.temp as u32);
    push_le32(out, r.pressure as u32);
    push_le32(out, r.humidity as u32);
    push_le32(out, r.gas_resistance);
    proof {
        assert(final(out)@ =~= old(out)@ + env_bytes(*r));
    }
}

/// The frame of a message, at most `MAX_FRAME_LEN` bytes long.
pub fn encode_message(t: &Transmission<Message>) -> (r: Vec<u8>)
    ensures
        r@ == message_frame(t.src, t.msg@),
        message_view_wf(t.msg@),
        r@.len() <= MAX_FRAME_LEN,
{
    let mut out: Vec<u8> = Vec::new();
    push_le16(&mut out, t.src.0);
    match &t.msg {
        Message::MoistureReport(report) => {
            out.push(TAG_MOISTURE);
            encode_readings(&mut out, report);
            proof {
                lemma_readings_bytes(report@);
                assert(out@ =~= le16(t.src.0) + message_body(t.msg@));
            }
        },
        Message::BME688Report(r) => {
            out.push(TAG_ENVIRONMENT);
            encode_environment(&mut out, r);
            proof {
                assert(out@ =~= le16(t.src.0) + message_body(t.msg@));
            }
        },
        Message::StatusUpdate(st) => {
            out.push(TAG_STATUS);
            out.push(st.flags.bits());
            proof {
                assert(out@ =~= le16(t.src.0) + message_body(t.msg@));
            }
        },
    }
    out
}

/// The frame of a command.
pub fn encode_command(t: &Transmission<Command>) -> (r: Vec<u8>)
    ensures
        r@ == command_frame(*t),
        r@.len() <= MAX_FRAME_LEN,
{
    let mut out: Vec<u8> = Vec::new();
    push_le16(&mut out, t.src.0);
    match t.msg {
        Command::SyncFlags(f) => {
            out.push(TAG_SYNC_FLAGS);
            out.push(f.bits());
        },
        Command::Reset => {
            out.push(TAG_RESET);
        },
    }
    proof {
        assert(out@ =~= command_frame(*t));
    }
    out
}

/// The message frame at the start of `b`; `None` when `b` does not begin
/// with one.
pub fn decode_message(b: &[u8]) -> (r: Option<Transmission<Message>>)
    ensures
        r matches Some(t) ==> parse_message_frame(b@) == Some((t.src, t.msg@)),
        r is None ==> parse_message_frame(b@) is None,
{
    if b.len() < 3 {
        return None;
    }
    let src = DevAddr(read_u16(b, 0));
    let tag = b[2];
    if tag == TAG_MOISTURE {
        if b.len() < 4 {
            return None;
        }
        let n = b[3] as usize;
        if n > MAX_CHANNELS || b.len() < 4 + 6 * n {
            return None;
        }
        let ghost want = Seq::new(n as nat, |k: int| reading_at(b@, 4 + 6 * k));
        let mut readings = Readings::new();
        let mut k: usize = 0;
        while k < n
            invariant
                n <= MAX_CHANNELS,
                4 + 6 * n <= b@.len(),
                k <= n,
                want == Seq::new(n as nat, |k: int| reading_at(b@, 4 + 6 * k)),
                readings_of(readings) == want.subrange(0, k as int),
            decreases n - k,
        {
            let at = 4 + 6 * k;
            let r = MoistureReading { clocks: read_u16(b, at), duration_ms: read_u32(b, at + 2) };
            let _ = readings.push(r);
            proof {
                assert(readings_of(readings) =~= want.subrange(0, k + 1));
            }
            k = k + 1;
        }
        proof {
            assert(want.subrange(0, n as int) =~= want);
        }
        let msg = Message::MoistureReport(MoistureSensorReport { moisture: readings });
        Some(Transmission { src, msg })
    } else if tag == TAG_ENVIRONMENT {
        if b.len() < 19 {
            return None;
        }
        let r = BME688SensorReport {
            temp: read_u32(b, 3) as i32,
            pressure: read_u32(b, 7) as i32,
            humidity: read_u32(b, 11) as i32,
            gas_resistance: read_u32(b, 15),
        };
        Some(Transmission { src, msg: Message::BME688Report(r) })
    } else if tag == TAG_STATUS {
        if b.len() < 4 {
            return None;
        }
        match StatusFlags::from_bits(b[3]) {
            Some(f) => Some(
                Transmission { src, msg: Message::StatusUpdate(DeviceStatus { flags: f }) },
            ),
            None => None,
        }
    } else {
        None
    }
}

/// The command frame at the start of `b`; `None` when `b` does not begin
/// with one.
pub fn decode_command(b: &[u8]) -> (r: Option<Transmission<Command>>)
    ensures
        r == parse_command_frame(b@),
{
    if b.len() < 3 {
        return None;
    }
    let src = DevAddr(read_u16(b, 0));
    if b[2] == TAG_SYNC_FLAGS {
        if b.len() < 4 {
            return None;
        }
        match StatusFlags::from_bits(b[3]) {
            Some(f) => Some(Transmission { src, msg: Command::SyncFlags(f) }),
            None => None,
        }
    } else if b[2] == TAG_RESET {
        Some(Transmission { src, msg: Command::Reset })
    } else {
        None
    }
}

} // verus!
