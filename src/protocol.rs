use crate::encoding::{base64_decode, base64_encode, encode_base64, lemma_base64_round_trip};
use vstd::prelude::*;
use vstd::string::*;

verus! {

/// Escape sequence that opens every graphics command (APC `G`).
pub open spec fn protocol_start() -> Seq<char> {
    seq!['\x1b', '_', 'G']
}

/// Escape sequence that closes every graphics command (string terminator).
pub open spec fn protocol_end() -> Seq<char> {
    seq!['\x1b', '\\']
}

/// The decimal digits of a natural number, most significant first.
pub open spec fn decimal(n: nat) -> Seq<char>
    decreases n,
{
    if n < 10 {
        seq![(n + 48) as char]
    } else {
        decimal(n / 10) + seq![((n % 10) + 48) as char]
    }
}

/// The bytes a command carries: none when no payload is given.
pub open spec fn payload_bytes(payload: Option<&[u8]>) -> Seq<u8> {
    match payload {
        Some(p) => p@,
        None => seq![],
    }
}

/// One graphics command on the wire: start marker, control data, `;`, the
/// base64 text of the payload, end marker.
pub open spec fn framed(control: Seq<char>, payload: Seq<u8>) -> Seq<char> {
    protocol_start() + control + seq![';'] + base64_encode(payload) + protocol_end()
}

/// A framed command is the start marker, the control data, `;`, the base64
/// text of the payload and the end marker, and the text between the `;` and
/// the end marker decodes back to exactly the payload.
pub proof fn lemma_framing(control: Seq<char>, payload: Seq<u8>)
    ensures
        framed(control, payload) == protocol_start() + control + seq![';'] + base64_encode(payload)
            + protocol_end(),
        base64_decode(
            framed(control, payload).subrange(
                protocol_start().len() + control.len() + 1 as int,
                framed(control, payload).len() - protocol_end().len() as int,
            ),
        ) == payload,
{
    let f = framed(control, payload);
    let start = protocol_start().len() + control.len() + 1 as int;
    assert(f.subrange(start, f.len() - protocol_end().len() as int) =~= base64_encode(payload));
    lemma_base64_round_trip(payload);
}

/// Control data that deletes every image the terminal holds.
pub open spec fn clear_control() -> Seq<char> {
    "a=d,d=a"@
}

/// Control data that transmits RGBA pixels from a file into the terminal's
/// memory under `id`, without showing them.
pub open spec fn load_control(width: nat, height: nat, id: nat) -> Seq<char> {
    "a=t,t=t,f=32,s="@ + decimal(width) + ",v="@ + decimal(height) + ",i="@ + decimal(id)
        + ",q=2"@
}

/// Control data that shows the image already held under `id` over
/// `cols` by `rows` cells.
pub open spec fn place_control(cols: nat, rows: nat, id: nat) -> Seq<char> {
    "a=p,c="@ + decimal(cols) + ",r="@ + decimal(rows) + ",i="@ + decimal(id) + ",q=2"@
}

/// Control data that transmits RGBA pixels from a file and shows them at
/// once over `cols` by `rows` cells.
pub open spec fn transmit_control(width: nat, height: nat, cols: nat, rows: nat) -> Seq<char> {
    "a=T,t=t,f=32,s="@ + decimal(width) + ",v="@ + decimal(height) + ",c="@ + decimal(cols)
        + ",r="@ + decimal(rows) + ",q=2"@
}

/// Relies on the `Display` impl of `u64` (through `to_string`): decimal
/// digits, no sign, no leading zeros.
#[verifier::external_body]
pub(crate) fn decimal_string(n: u64) -> (r: String)
    ensures
        r@ == decimal(n as nat),
{
    n.to_string()
}

/// Frames one graphics command around the control data `command` and the
/// optional payload, ready to be written and flushed as one unit.
pub fn send_graphics_command(command: &str, payload: Option<&[u8]>) -> (r: String)
    ensures
        r@ == framed(command@, payload_bytes(payload)),
{
    let data = match payload {
        Some(p) => encode_base64(p),
        None => {
            let nothing: Vec<u8> = Vec::new();
            encode_base64(nothing.as_slice())
        },
    };
    let mut out = String::from_str("\x1b_G");
    out.append(command);
    out.append(";");
    out.append(data.as_str());
    out.append("\x1b\\");
    proof {
        reveal_strlit("\x1b_G");
        reveal_strlit(";");
        reveal_strlit("\x1b\\");
        assert(out@ =~= framed(command@, payload_bytes(payload)));
    }
    out
}

/// The control data of `load_control`.
pub fn load_control_string(width: u32, height: u32, id: u32) -> (r: String)
    ensures
        r@ == load_control(width as nat, height as nat, id as nat),
{
    let mut out = String::from_str("a=t,t=t,f=32,s=");
    out.append(decimal_string(width as u64).as_str());
    out.append(",v=");
    out.append(decimal_string(height as u64).as_str());
    out.append(",i=");
    out.append(decimal_string(id as u64).as_str());
    out.append(",q=2");
    out
}

/// The control data of `place_control`.
pub fn place_control_string(cols: u32, rows: u32, id: u32) -> (r: String)
    ensures
        r@ == place_control(cols as nat, rows as nat, id as nat),
{
    let mut out = String::from_str("a=p,c=");
    out.append(decimal_string(cols as u64).as_str());
    out.append(",r=");
    out.append(decimal_string(rows as u64).as_str());
    out.append(",i=");
    out.append(decimal_string(id as u64).as_str());
    out.append(",q=2");
    out
}

/// The control data of `transmit_control`.
pub fn transmit_control_string(width: u32, height: u32, cols: u32, rows: u32) -> (r: String)
    ensures
        r@ == transmit_control(width as nat, height as nat, cols as nat, rows as nat),
{
    let mut out = String::from_str("a=T,t=t,f=32,s=");
    out.append(decimal_string(width as u64).as_str());
    out.append(",v=");
    out.append(decimal_string(height as u64).as_str());
    out.append(",c=");
    out.append(decimal_string(cols as u64).as_str());
    out.append(",r=");
    out.append(decimal_string(rows as u64).as_str());
    out.append(",q=2");
    out
}

} // verus!
