//! The receipt encoder: a pure function from a print request to the device
//! control-code byte stream the receipt printer understands. The exact bytes
//! are a wire format the hardware requires, reproduced bit for bit.

use vstd::prelude::*;
use vstd::slice::slice_to_vec;
use vstd::string::*;
use vstd::utf8::encode_utf8;

verus! {

/// A print request: the persisted fields of one ticket, carried to the
/// printer; printing never re-reads the store.
pub struct PrintTicketRequest {
    pub queue_code: String,
    pub loket_type: String,
    pub patient_type: String,
    pub created_at: String,
}

/// The escape byte that prefixes single-byte commands.
pub const ESC: u8 = 0x1b;

/// The group-select byte that prefixes group commands.
pub const GS: u8 = 0x1d;

/// The complete control-code stream for one ticket: initialize; centered
/// double-size header; subtitle; triple-size ticket code; left-aligned
/// labeled detail lines; centered closing lines; paper feed; full cut.
/// Text lines are the UTF-8 bytes of the given strings, unvalidated.
pub open spec fn escpos_stream(
    code: Seq<char>,
    loket: Seq<char>,
    patient: Seq<char>,
    created: Seq<char>,
) -> Seq<u8> {
    seq![0x1bu8, 0x40u8]  // initialize
    + seq![0x1bu8, 0x61u8, 1u8]  // align center
    + seq![0x1du8, 0x21u8, 0x11u8]  // double width and height
    + encode_utf8("PUSKESMAS MREBET\n"@) + seq![0x1du8, 0x21u8, 0x00u8]  // normal size
    + encode_utf8("Nomor Antrian\n\n"@) + seq![0x1du8, 0x21u8, 0x22u8]  // triple width and height
    + encode_utf8(code) + encode_utf8("\n\n"@) + seq![0x1du8, 0x21u8, 0x00u8]  // normal size
    + seq![0x1bu8, 0x61u8, 0u8]  // align left
    + encode_utf8("Loket: "@) + encode_utf8(loket) + encode_utf8("\n"@) + encode_utf8("Jenis: "@)
        + encode_utf8(patient) + encode_utf8("\n"@) + encode_utf8("Waktu: "@) + encode_utf8(created)
        + encode_utf8("\n\n"@) + seq![0x1bu8, 0x61u8, 1u8]  // align center
    + encode_utf8("Terima Kasih\n"@) + encode_utf8("Harap Menunggu\n\n\n"@) + seq![
        0x1bu8,
        0x64u8,
        3u8,
    ]  // feed three lines
    + seq![0x1du8, 0x56u8, 0u8]  // full cut
}

fn put_text(data: &mut Vec<u8>, s: &str)
    ensures
        final(data)@ == old(data)@ + encode_utf8(s@),
{
    let mut bytes = slice_to_vec(s.as_bytes());
    data.append(&mut bytes);
}

fn put_cmd2(data: &mut Vec<u8>, a: u8, b: u8)
    ensures
        final(data)@ == old(data)@ + seq![a, b],
{
    data.push(a);
    data.push(b);
    proof {
        assert(data@ =~= old(data)@ + seq![a, b]);
    }
}

fn put_cmd3(data: &mut Vec<u8>, a: u8, b: u8, c: u8)
    ensures
        final(data)@ == old(data)@ + seq![a, b, c],
{
    data.push(a);
    data.push(b);
    data.push(c);
    proof {
        assert(data@ =~= old(data)@ + seq![a, b, c]);
    }
}

/// Encodes a print request into the device control-code byte stream. Pure
/// and total: the same request always yields the identical bytes, and no
/// validation is performed on the strings.
pub fn generate_escpos_data(request: &PrintTicketRequest) -> (r: Vec<u8>)
    ensures
        r@ == escpos_stream(
            request.queue_code@,
            request.loket_type@,
            request.patient_type@,
            request.created_at@,
        ),
{
    let mut data: Vec<u8> = Vec::new();
    put_cmd2(&mut data, ESC, 0x40);
    put_cmd3(&mut data, ESC, 0x61, 1);
    put_cmd3(&mut data, GS, 0x21, 0x11);
    put_text(&mut data, "PUSKESMAS MREBET\n");
    put_cmd3(&mut data, GS, 0x21, 0x00);
    put_text(&mut data, "Nomor Antrian\n\n");
    put_cmd3(&mut data, GS, 0x21, 0x22);
    put_text(&mut data, request.queue_code.as_str());
    put_text(&mut data, "\n\n");
    put_cmd3(&mut data, GS, 0x21, 0x00);
    put_cmd3(&mut data, ESC, 0x61, 0);
    put_text(&mut data, "Loket: ");
    put_text(&mut data, request.loket_type.as_str());
    put_text(&mut data, "\n");
    put_text(&mut data, "Jenis: ");
    put_text(&mut data, request.patient_type.as_str());
    put_text(&mut data, "\n");
    put_text(&mut data, "Waktu: ");
    put_text(&mut data, request.created_at.as_str());
    put_text(&mut data, "\n\n");
    put_cmd3(&mut data, ESC, 0x61, 1);
    put_text(&mut data, "Terima Kasih\n");
    put_text(&mut data, "Harap Menunggu\n\n\n");
    put_cmd3(&mut data, ESC, 0x64, 3);
    put_cmd3(&mut data, GS, 0x56, 0);
    proof {
        assert(data@ =~= escpos_stream(
            request.queue_code@,
            request.loket_type@,
            request.patient_type@,
            request.created_at@,
        ));
    }
    data
}

/// The stream is framed by the hardware handshake: it always begins with the
/// initialize command and always ends with the full-cut command, whatever
/// the ticket's fields hold.
pub proof fn lemma_stream_framing(
    code: Seq<char>,
    loket: Seq<char>,
    patient: Seq<char>,
    created: Seq<char>,
)
    ensures
        escpos_stream(code, loket, patient, created).len() >= 5,
        escpos_stream(code, loket, patient, created)[0] == 0x1b,
        escpos_stream(code, loket, patient, created)[1] == 0x40,
        escpos_stream(code, loket, patient, created)[escpos_stream(
            code,
            loket,
            patient,
            created,
        ).len() - 3] == 0x1d,
        escpos_stream(code, loket, patient, created)[escpos_stream(
            code,
            loket,
            patient,
            created,
        ).len() - 2] == 0x56,
        escpos_stream(code, loket, patient, created)[escpos_stream(
            code,
            loket,
            patient,
            created,
        ).len() - 1] == 0,
{
    let s = escpos_stream(code, loket, patient, created);
    let head = seq![0x1bu8, 0x40u8];
    let tail = seq![0x1du8, 0x56u8, 0u8];
    assert(s.len() >= 5);
    assert(s[0] == head[0] && s[1] == head[1]);
    assert(s[s.len() - 3] == tail[0] && s[s.len() - 2] == tail[1] && s[s.len() - 1] == tail[2]);
}

} // verus!
