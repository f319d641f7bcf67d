//! The table that frames are stored in: a header line, then one line for
//! each frame, the fields separated by commas.

use vstd::prelude::*;
use crate::csi_packet::{CsiPacket, Frame};
use crate::decimal::{
    lemma_parse_render_i32, lemma_parse_render_u64, lemma_render_int_chars,
    parse_i32, parse_u64, read_i32, read_u64, render_int, render_nat, write_i32,
    write_u64,
};
use crate::text::{
    chars_of, is_space, lemma_split_push, lemma_split_single, lemma_trim_padded, lemma_trim_tight,
    split, split_fields, trim, trimmed, views,
};

verus! {

/// What the header begins with: the names of the two columns that every
/// table has.
pub open spec fn header_start() -> Seq<char> {
    "device_timestamp,signal_strength"@
}

/// The names of the columns of the first `m` subcarriers, each with a comma
/// in front: `,i0,q0,i1,q1` and so on.
pub open spec fn header_columns(m: nat) -> Seq<char>
    decreases m,
{
    if m == 0 {
        Seq::empty()
    } else {
        header_columns((m - 1) as nat) + seq![',', 'i'] + render_nat((m - 1) as nat) + seq![
            ',',
            'q',
        ] + render_nat((m - 1) as nat)
    }
}

/// The header of a table whose frames hold `num_csi_values` raw values.
pub open spec fn csv_header(num_csi_values: nat) -> Seq<char> {
    header_start() + header_columns(num_csi_values / 2)
}

/// `values` in decimal, each with a comma in front.
pub open spec fn row_values(values: Seq<i32>) -> Seq<char>
    decreases values.len(),
{
    if values.len() == 0 {
        Seq::empty()
    } else {
        row_values(values.drop_last()) + seq![','] + render_int(values.last() as int)
    }
}

/// The line of the table that stores `frame`, without its line end.
pub open spec fn csv_row(frame: Frame) -> Seq<char> {
    render_nat(frame.timestamp as nat) + seq![','] + render_int(frame.rssi as int) + row_values(
        frame.values,
    )
}

/// The numbers that `fields` write, where every one of them writes one.
pub open spec fn read_all(fields: Seq<Seq<char>>) -> Option<Seq<i32>> {
    if forall|i: int| 0 <= i < fields.len() ==> parse_i32(trim(#[trigger] fields[i])) is Some {
        Some(Seq::new(fields.len(), |i: int| parse_i32(trim(fields[i]))->0))
    } else {
        None
    }
}

/// The frame that a line of the table stores, for a table of `subcarriers`
/// subcarriers. A line with fewer fields than two and two for each
/// subcarrier stores none, nor does one with a field that is no number;
/// fields beyond those are not looked at.
pub open spec fn decode_row(line: Seq<char>, subcarriers: nat) -> Option<Frame> {
    let fields = split(trim(line), ',');
    if fields.len() < 2 + 2 * subcarriers {
        None
    } else {
        match (
            parse_u64(trim(fields[0])),
            parse_i32(trim(fields[1])),
            read_all(fields.subrange(2, 2 + 2 * subcarriers as int)),
        ) {
            (Some(timestamp), Some(rssi), Some(values)) => Some(
                Frame { timestamp: timestamp, rssi: rssi, values: values },
            ),
            _ => None,
        }
    }
}

/// The header of a table whose frames hold `num_csi_values` raw values.
pub fn generate_csv_header(num_csi_values: usize) -> (header: String)
    ensures
        header@ == csv_header(num_csi_values as nat),
{
    let mut header = String::new();
    header.append("device_timestamp,signal_strength");
    let num_subcarriers = num_csi_values / 2;
    let mut k: usize = 0;
    while k < num_subcarriers
        invariant
            k <= num_subcarriers,
            header@ == header_start() + header_columns(k as nat),
        decreases num_subcarriers - k,
    {
        header.push(',');
        header.push('i');
        write_u64(&mut header, k as u64);
        header.push(',');
        header.push('q');
        write_u64(&mut header, k as u64);
        k = k + 1;
    }
    header
}

/// Appends to `out` the line that stores `packet`, with its line end.
pub fn write_csv_line(out: &mut String, packet: &CsiPacket)
    ensures
        final(out)@ == old(out)@ + csv_row(packet@) + seq!['\n'],
{
    write_u64(out, packet.esp_timestamp);
    out.push(',');
    write_i32(out, packet.rssi);
    let ghost start = out@;
    let mut i: usize = 0;
    while i < packet.csi_values.len()
        invariant
            i <= packet.csi_values.len(),
            out@ == start + row_values(packet.csi_values@.take(i as int)),
        decreases packet.csi_values.len() - i,
    {
        out.push(',');
        write_i32(out, packet.csi_values[i]);
        i = i + 1;
        proof {
            let t = packet.csi_values@.take(i as int);
            assert(t.drop_last() =~= packet.csi_values@.take(i - 1));
        }
    }
    out.push('\n');
    proof {
        assert(packet.csi_values@.take(packet.csi_values@.len() as int) =~= packet.csi_values@);
    }
}

/// Reads back the frame that a line of the table stores.
pub fn decode_csv_line(line: &str, subcarriers: usize) -> (out: Option<CsiPacket>)
    ensures
        crate::csi_packet::frame_of(out) == decode_row(line@, subcarriers as nat),
{
    let chars = chars_of(line);
    let fields = split_fields(trimmed(chars.as_slice()), ',');
    if subcarriers > (usize::MAX - 2) / 2 {
        assert(views(fields@).len() == fields.len() <= usize::MAX < 2 + 2 * subcarriers);
        return None;
    }
    let needed: usize = 2 + 2 * subcarriers;
    if fields.len() < needed {
        return None;
    }
    let ghost all = views(fields@);
    let ghost wanted = all.subrange(2, needed as int);
    let timestamp = read_u64(trimmed(fields[0]));
    let rssi = read_i32(trimmed(fields[1]));
    let mut values: Vec<i32> = Vec::new();
    let mut i: usize = 2;
    while i < needed
        invariant
            2 <= i <= needed <= fields.len(),
            all == views(fields@),
            all == split(trim(line@), ','),
            needed == 2 + 2 * subcarriers,
            wanted == all.subrange(2, needed as int),
            values@.len() == i - 2,
            forall|j: int|
                0 <= j < i - 2 ==> parse_i32(trim(#[trigger] wanted[j])) == Some(values@[j]),
        decreases needed - i,
    {
        assert(wanted[i - 2] == fields@[i as int]@);
        match read_i32(trimmed(fields[i])) {
            Some(v) => {
                values.push(v);
            },
            None => {
                return None;
            },
        }
        i = i + 1;
    }
    assert(values@ =~= read_all(wanted)->0);
    match (timestamp, rssi) {
        (Some(ts), Some(strength)) => Some(
            CsiPacket { esp_timestamp: ts, rssi: strength, csi_values: values },
        ),
        _ => None,
    }
}

/// The fields of the line that stores `frame`.
pub open spec fn row_fields(frame: Frame) -> Seq<Seq<char>> {
    seq![render_nat(frame.timestamp as nat), render_int(frame.rssi as int)] + Seq::new(
        frame.values.len(),
        |i: int| render_int(frame.values[i] as int),
    )
}

proof fn lemma_no_comma_in_number(v: int)
    ensures
        forall|j: int| 0 <= j < render_int(v).len() ==> render_int(v)[j] != ',',
        render_int(v).len() > 0,
        !is_space(render_int(v)[0]),
        !is_space(render_int(v).last()),
{
    lemma_render_int_chars(v);
}

proof fn lemma_split_row(frame: Frame)
    ensures
        split(csv_row(frame), ',') == row_fields(frame),
    decreases frame.values.len(),
{
    let ts = render_nat(frame.timestamp as nat);
    let rssi = render_int(frame.rssi as int);
    lemma_no_comma_in_number(frame.timestamp as int);
    lemma_no_comma_in_number(frame.rssi as int);
    if frame.values.len() == 0 {
        lemma_split_single(ts, ',');
        lemma_split_push(ts, rssi, ',');
    } else {
        let head = Frame { values: frame.values.drop_last(), ..frame };
        let last = render_int(frame.values.last() as int);
        lemma_split_row(head);
        lemma_no_comma_in_number(frame.values.last() as int);
        lemma_split_push(csv_row(head), last, ',');
        assert(csv_row(frame) =~= csv_row(head) + seq![','] + last);
    }
}

/// Decoding the line that stores a well-formed frame gives the frame back,
/// value for value; the line end that follows it in the table does not
/// matter.
pub proof fn lemma_decode_encoded_row(frame: Frame)
    requires
        frame.values.len() % 2 == 0,
    ensures
        decode_row(csv_row(frame), frame.values.len() / 2) == Some(frame),
        decode_row(csv_row(frame) + seq!['\n'], frame.values.len() / 2) == Some(frame),
{
    let row = csv_row(frame);
    let n = frame.values.len();
    lemma_no_comma_in_number(frame.timestamp as int);
    lemma_no_comma_in_number(frame.rssi as int);
    if n > 0 {
        lemma_no_comma_in_number(frame.values.last() as int);
    }
    lemma_trim_tight(row);
    lemma_trim_padded(Seq::empty(), row, seq!['\n']);
    lemma_split_row(frame);
    let fields = row_fields(frame);
    let wanted = fields.subrange(2, 2 + n as int);
    lemma_trim_tight(fields[0]);
    lemma_trim_tight(fields[1]);
    lemma_parse_render_u64(frame.timestamp);
    lemma_parse_render_i32(frame.rssi);
    assert forall|i: int| 0 <= i < wanted.len() implies parse_i32(trim(#[trigger] wanted[i]))
        == Some(frame.values[i]) by {
        lemma_no_comma_in_number(frame.values[i] as int);
        lemma_trim_tight(wanted[i]);
        lemma_parse_render_i32(frame.values[i]);
    }
    assert(read_all(wanted)->0 =~= frame.values);
}

} // verus!
