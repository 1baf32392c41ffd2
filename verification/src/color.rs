//! Colours: user-name colour normalisation, provider colours, hex colour tags.

use vstd::prelude::*;
use vstd::utf8::encode_utf8;
use crate::model::ProviderName;

verus! {

/// The colour used for a user that has none.
pub const DEFAULT_USER_COLOR: (u8, u8, u8) = (255u8, 255u8, 255u8);

/// egui's `Color32::GRAY`, used for combo participants without a name.
pub const GRAY: (u8, u8, u8) = (160u8, 160u8, 160u8);

/// Brightness the colour normalisation lifts dark channels toward.
pub const BRIGHTNESS_TARGET: u8 = 150u8;

/// How far a channel is below the target, and how far it may still rise.
pub open spec fn channel_adjust(x: u8) -> (int, int) {
    if x < BRIGHTNESS_TARGET {
        (BRIGHTNESS_TARGET - x, 255 - x)
    } else {
        (0, 255 - x)
    }
}

pub open spec fn min_int(a: int, b: int) -> int {
    if a < b { a } else { b }
}

/// Brightness-normalised colour: white stays white; otherwise every channel is
/// raised by the mean shortfall below the target, capped at 255.
pub open spec fn convert_color_spec(c: (u8, u8, u8)) -> (u8, u8, u8) {
    if c == (255u8, 255u8, 255u8) {
        (255u8, 255u8, 255u8)
    } else {
        let (rd, rm) = channel_adjust(c.0);
        let (gd, gm) = channel_adjust(c.1);
        let (bd, bm) = channel_adjust(c.2);
        let adj = (rd + gd + bd) / 3;
        (
            (c.0 + min_int(adj, rm)) as u8,
            (c.1 + min_int(adj, gm)) as u8,
            (c.2 + min_int(adj, bm)) as u8,
        )
    }
}

fn adjust(x: u8) -> (r: (u8, u8))
    ensures
        r.0 as int == channel_adjust(x).0,
        r.1 as int == channel_adjust(x).1,
{
    if x < BRIGHTNESS_TARGET {
        (BRIGHTNESS_TARGET - x, 255 - x)
    } else {
        (0, 255 - x)
    }
}

/// Normalises the brightness of a user colour so that it reads on a dark
/// background.
pub fn convert_color(input: &(u8, u8, u8)) -> (r: (u8, u8, u8))
    ensures
        r == convert_color_spec(*input),
        // no channel gets darker
        r.0 >= input.0 && r.1 >= input.1 && r.2 >= input.2,
{
    if input.0 == 255 && input.1 == 255 && input.2 == 255 {
        return (255, 255, 255);
    }
    let (r, g, b) = (input.0, input.1, input.2);
    let (r_diff, r_max_adj) = adjust(r);
    let (g_diff, g_max_adj) = adjust(g);
    let (b_diff, b_max_adj) = adjust(b);
    let adj = ((r_diff as u16 + g_diff as u16 + b_diff as u16) / 3) as u8;
    let ra = if adj < r_max_adj { adj } else { r_max_adj };
    let ga = if adj < g_max_adj { adj } else { g_max_adj };
    let ba = if adj < b_max_adj { adj } else { b_max_adj };
    (r + ra, g + ga, b + ba)
}

/// The accent colour of each provider, as RGBA.
pub open spec fn provider_color_spec(p: ProviderName) -> (u8, u8, u8, u8) {
    match p {
        ProviderName::Twitch => (169u8, 112u8, 255u8, 255u8),
        ProviderName::YouTube => (255u8, 78u8, 69u8, 255u8),
        ProviderName::DGG => (83u8, 140u8, 198u8, 255u8),
    }
}

/// The accent colour of a provider, as RGBA.
pub fn get_provider_color(provider: &ProviderName) -> (r: (u8, u8, u8, u8))
    ensures
        r == provider_color_spec(*provider),
{
    match provider {
        ProviderName::Twitch => (169, 112, 255, 255),
        ProviderName::YouTube => (255, 78, 69, 255),
        ProviderName::DGG => (83, 140, 198, 255),
    }
}

/// The value of one hex digit byte, as the `hex` crate reads it.
pub open spec fn hex_val(c: u8) -> Option<u8> {
    if 65 <= c <= 70 {
        Some((c - 55) as u8)
    } else if 97 <= c <= 102 {
        Some((c - 87) as u8)
    } else if 48 <= c <= 57 {
        Some((c - 48) as u8)
    } else {
        None
    }
}

/// Hex decoding: an even number of hex digit bytes, two per output byte, high
/// digit first; anything else is an error.
pub open spec fn hex_decode_spec(b: Seq<u8>) -> Option<Seq<u8>> {
    if b.len() % 2 == 0 && forall|i: int| 0 <= i < b.len() ==> #[trigger] hex_val(b[i]) is Some {
        Some(
            Seq::new(
                b.len() / 2,
                |i: int| (hex_val(b[2 * i])->0 * 16 + hex_val(b[2 * i + 1])->0) as u8,
            ),
        )
    } else {
        None
    }
}

#[verifier::external_type_specification]
#[verifier::external_body]
pub struct ExFromHexError(hex::FromHexError);

/// Decodes hex digits.
///
/// Calls `hex::decode`. Its source checks the length is even, then maps each
/// pair of bytes through a digit table (`0-9`, `a-f`, `A-F`) to `hi << 4 | lo`;
/// the contract states that behaviour. Which error variant comes back on failure
/// is left unsaid.
#[verifier::external_body]
fn hex_decode(b: &[u8]) -> (r: Result<Vec<u8>, hex::FromHexError>)
    ensures
        match r {
            Ok(v) => hex_decode_spec(b@) == Some(v@),
            Err(_) => hex_decode_spec(b@).is_none(),
        },
{
    hex::decode(b)
}

/// Leading bytes equal to `c` removed.
pub open spec fn trim_start_bytes(s: Seq<u8>, c: u8) -> Seq<u8>
    decreases s.len(),
{
    if s.len() > 0 && s[0] == c {
        trim_start_bytes(s.drop_first(), c)
    } else {
        s
    }
}

proof fn lemma_trim_start_bytes_skip(s: Seq<u8>, c: u8, j: int)
    requires
        0 <= j <= s.len(),
        forall|k: int| 0 <= k < j ==> s[k] == c,
    ensures
        trim_start_bytes(s, c) == trim_start_bytes(s.skip(j), c),
    decreases j,
{
    if j == 0 {
        assert(s.skip(0) == s);
    } else {
        lemma_trim_start_bytes_skip(s.drop_first(), c, j - 1);
        assert(s.drop_first().skip(j - 1) == s.skip(j));
    }
}

/// The bytes that are hex-decoded for a colour tag: its UTF-8 encoding with the
/// leading `#` characters removed.
pub open spec fn color_hex_digits(s: Seq<char>) -> Seq<u8> {
    trim_start_bytes(encode_utf8(s), 35u8)
}

/// The colour a hex colour tag stands for. An empty tag has none; a tag that is
/// not hex has none; otherwise the first three decoded bytes.
pub open spec fn color_from_hex_spec(s: Seq<char>) -> Option<(u8, u8, u8)> {
    if s.len() == 0 {
        None
    } else {
        match hex_decode_spec(color_hex_digits(s)) {
            Some(v) => Some((v[0], v[1], v[2])),
            None => None,
        }
    }
}

/// A tag that decodes as hex yet to fewer than three bytes: reading it indexes
/// past the end.
pub open spec fn color_hex_too_short(s: Seq<char>) -> bool {
    s.len() > 0 && match hex_decode_spec(color_hex_digits(s)) {
        Some(v) => v.len() < 3,
        None => false,
    }
}

/// Parses a `#rrggbb` colour tag.
pub fn convert_color_hex(hex_string: Option<&String>) -> (r: Option<(u8, u8, u8)>)
    requires
        hex_string matches Some(s) ==> !color_hex_too_short(s@),
    ensures
        r == match hex_string {
            Some(s) => color_from_hex_spec(s@),
            None => None,
        },
{
    match hex_string {
        Some(hex_str) => {
            if hex_str.as_str().is_empty() {
                return None;
            }
            let bytes = hex_str.as_str().as_bytes();
            let mut j: usize = 0;
            while j < bytes.len() && bytes[j] == 35u8
                invariant
                    j <= bytes@.len(),
                    forall|k: int| 0 <= k < j ==> bytes@[k] == 35u8,
                decreases bytes@.len() - j,
            {
                j += 1;
            }
            proof {
                lemma_trim_start_bytes_skip(bytes@, 35u8, j as int);
                assert(bytes@.skip(j as int) == bytes@.subrange(j as int, bytes@.len() as int));
            }
            let rest = slice_range(bytes, j, bytes.len());
            match hex_decode(rest.as_slice()) {
                Ok(val) => Some((val[0], val[1], val[2])),
                Err(_) => None,
            }
        },
        None => None,
    }
}

/// Copies `s[from..to]`.
fn slice_range(s: &[u8], from: usize, to: usize) -> (r: Vec<u8>)
    requires
        from <= to <= s@.len(),
    ensures
        r@ == s@.subrange(from as int, to as int),
{
    let mut r: Vec<u8> = Vec::new();
    let mut i = from;
    while i < to
        invariant
            from <= i <= to <= s@.len(),
            r@ == s@.subrange(from as int, i as int),
        decreases to - i,
    {
        r.push(s[i]);
        assert(s@.subrange(from as int, i + 1) == s@.subrange(from as int, i as int).push(s@[i as int]));
        i += 1;
    }
    r
}

/// Whether a colour tag can be read: it is absent, or it does not decode to
/// fewer than three bytes.
pub fn color_hex_usable(hex_string: Option<&String>) -> (r: bool)
    ensures
        r == (hex_string matches Some(s) ==> !color_hex_too_short(s@)),
{
    match hex_string {
        Some(hex_str) => {
            if hex_str.as_str().is_empty() {
                return true;
            }
            let bytes = hex_str.as_str().as_bytes();
            let mut j: usize = 0;
            while j < bytes.len() && bytes[j] == 35u8
                invariant
                    j <= bytes@.len(),
                    forall|k: int| 0 <= k < j ==> bytes@[k] == 35u8,
                decreases bytes@.len() - j,
            {
                j += 1;
            }
            proof {
                lemma_trim_start_bytes_skip(bytes@, 35u8, j as int);
                assert(bytes@.skip(j as int) == bytes@.subrange(j as int, bytes@.len() as int));
            }
            let rest = slice_range(bytes, j, bytes.len());
            match hex_decode(rest.as_slice()) {
                Ok(val) => val.len() >= 3,
                Err(_) => true,
            }
        },
        None => true,
    }
}

} // verus!
