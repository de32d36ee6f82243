use vstd::prelude::*;

verus! {

/// What `wuff::decompress_woff1` returns for the given bytes: the decompressed
/// font, or `None` where it reports an error.
pub uninterp spec fn woff1_decompressed(bytes: Seq<u8>) -> Option<Seq<u8>>;

/// What `wuff::decompress_woff2` returns for the given bytes: the decompressed
/// font, or `None` where it reports an error.
pub uninterp spec fn woff2_decompressed(bytes: Seq<u8>) -> Option<Seq<u8>>;

/// Calls `wuff::decompress_woff1`. The contract claims only that the outcome
/// (decompressed bytes, or failure) is the one named by `woff1_decompressed`
/// for these input bytes: the decoder is a pure function of its input.
#[verifier::external_body]
fn decompress_woff1(bytes: &[u8]) -> (res: Option<Vec<u8>>)
    ensures
        match res {
            Some(v) => woff1_decompressed(bytes@) == Some(v@),
            None => woff1_decompressed(bytes@) is None,
        },
{
    wuff::decompress_woff1(bytes).ok()
}

/// Calls `wuff::decompress_woff2`. The contract claims only that the outcome
/// (decompressed bytes, or failure) is the one named by `woff2_decompressed`
/// for these input bytes: the decoder is a pure function of its input.
#[verifier::external_body]
fn decompress_woff2(bytes: &[u8]) -> (res: Option<Vec<u8>>)
    ensures
        match res {
            Some(v) => woff2_decompressed(bytes@) == Some(v@),
            None => woff2_decompressed(bytes@) is None,
        },
{
    wuff::decompress_woff2(bytes).ok()
}

/// The container format announced by the first four bytes of a font file.
#[derive(Clone, Copy, Debug, PartialEq, Eq, Structural)]
pub enum FontContainer {
    /// Anything that is not WOFF: TTF/OTF data, or fewer than four bytes.
    Plain,
    /// Starts with the WOFF 1.0 signature `wOFF`.
    Woff1,
    /// Starts with the WOFF 2.0 signature `wOF2`.
    Woff2,
}

/// Font bytes after decoding: either the caller's bytes themselves, or a
/// freshly decompressed buffer.
#[derive(Debug)]
pub enum FontBytes<'a> {
    Borrowed(&'a [u8]),
    Owned(Vec<u8>),
}

impl<'a> View for FontBytes<'a> {
    type V = Seq<u8>;

    open spec fn view(&self) -> Seq<u8> {
        match self {
            FontBytes::Borrowed(b) => b@,
            FontBytes::Owned(v) => v@,
        }
    }
}

impl<'a> FontBytes<'a> {
    /// The decoded bytes as a slice.
    pub fn as_slice(&self) -> (res: &[u8])
        ensures
            res@ == self@,
    {
        match self {
            FontBytes::Borrowed(b) => b,
            FontBytes::Owned(v) => v.as_slice(),
        }
    }
}

/// Whether a byte string starts with the four-byte signature `sig`.
pub open spec fn has_signature(bytes: Seq<u8>, sig: Seq<u8>) -> bool {
    &&& bytes.len() >= 4
    &&& bytes.take(4) == sig
}

/// The WOFF 1.0 signature, `wOFF`.
pub open spec fn woff1_signature() -> Seq<u8> {
    seq![0x77u8, 0x4Fu8, 0x46u8, 0x46u8]
}

/// The WOFF 2.0 signature, `wOF2`.
pub open spec fn woff2_signature() -> Seq<u8> {
    seq![0x77u8, 0x4Fu8, 0x46u8, 0x32u8]
}

pub open spec fn spec_font_container(bytes: Seq<u8>) -> FontContainer {
    if has_signature(bytes, woff1_signature()) {
        FontContainer::Woff1
    } else if has_signature(bytes, woff2_signature()) {
        FontContainer::Woff2
    } else {
        FontContainer::Plain
    }
}

/// Classifies font bytes by their leading signature.
pub fn font_container(bytes: &[u8]) -> (res: FontContainer)
    ensures
        res == spec_font_container(bytes@),
{
    if bytes.len() < 4 {
        return FontContainer::Plain;
    }
    let b0 = bytes[0];
    let b1 = bytes[1];
    let b2 = bytes[2];
    let b3 = bytes[3];
    proof {
        assert(bytes@.take(4) =~= seq![b0, b1, b2, b3]);
    }
    if b0 == 0x77 && b1 == 0x4F && b2 == 0x46 && b3 == 0x46 {
        FontContainer::Woff1
    } else if b0 == 0x77 && b1 == 0x4F && b2 == 0x46 && b3 == 0x32 {
        FontContainer::Woff2
    } else {
        proof {
            // A sequence equal to a signature agrees with it at every index.
            if bytes@.take(4) == woff1_signature() {
                assert(bytes@.take(4)[3] == woff1_signature()[3]);
            }
            if bytes@.take(4) == woff2_signature() {
                assert(bytes@.take(4)[3] == woff2_signature()[3]);
            }
        }
        FontContainer::Plain
    }
}

/// Keeps the result of a decompression when there is one, and otherwise falls
/// back to the input bytes unchanged.
pub fn decompressed_or_input<'a>(bytes: &'a [u8], decompressed: Option<Vec<u8>>) -> (res:
    FontBytes<'a>)
    ensures
        match decompressed {
            Some(v) => res == FontBytes::<'a>::Owned(v),
            None => res == FontBytes::<'a>::Borrowed(bytes),
        },
{
    match decompressed {
        Some(v) => FontBytes::Owned(v),
        None => FontBytes::Borrowed(bytes),
    }
}

/// Whether `decode_font_bytes` hands back its input unchanged: the bytes are
/// not WOFF, or their decompression fails.
pub open spec fn falls_back(bytes: Seq<u8>) -> bool {
    match spec_font_container(bytes) {
        FontContainer::Plain => true,
        FontContainer::Woff1 => woff1_decompressed(bytes) is None,
        FontContainer::Woff2 => woff2_decompressed(bytes) is None,
    }
}

/// The bytes `decode_font_bytes` yields for `bytes`.
pub open spec fn spec_decoded_font(bytes: Seq<u8>) -> Seq<u8> {
    match spec_font_container(bytes) {
        FontContainer::Plain => bytes,
        FontContainer::Woff1 => match woff1_decompressed(bytes) {
            Some(v) => v,
            None => bytes,
        },
        FontContainer::Woff2 => match woff2_decompressed(bytes) {
            Some(v) => v,
            None => bytes,
        },
    }
}

/// Decode raw font bytes, decompressing WOFF/WOFF2.
/// Returns the input slice unchanged for TTF/OTF input, and also on
/// decompression failure.
pub fn decode_font_bytes(bytes: &[u8]) -> (res: FontBytes<'_>)
    ensures
        res@ == spec_decoded_font(bytes@),
        res is Borrowed <==> falls_back(bytes@),
        bytes@.len() < 4 ==> res is Borrowed,
        res matches FontBytes::Borrowed(b) ==> b == bytes,
{
    match font_container(bytes) {
        FontContainer::Plain => FontBytes::Borrowed(bytes),
        FontContainer::Woff1 => decompressed_or_input(bytes, decompress_woff1(bytes)),
        FontContainer::Woff2 => decompressed_or_input(bytes, decompress_woff2(bytes)),
    }
}

/// Law: the containers are recognised by their first four bytes alone:
/// `wOFF` (0x77 0x4F 0x46 0x46) is WOFF 1.0, `wOF2` (0x77 0x4F 0x46 0x32) is
/// WOFF 2.0, and anything else, including fewer than four bytes, is plain.
pub proof fn law_font_container_signatures(bytes: Seq<u8>)
    ensures
        spec_font_container(bytes) == FontContainer::Woff1 <==> (bytes.len() >= 4 && bytes[0]
            == 0x77 && bytes[1] == 0x4F && bytes[2] == 0x46 && bytes[3] == 0x46),
        spec_font_container(bytes) == FontContainer::Woff2 <==> (bytes.len() >= 4 && bytes[0]
            == 0x77 && bytes[1] == 0x4F && bytes[2] == 0x46 && bytes[3] == 0x32),
{
    if bytes.len() >= 4 {
        let t = bytes.take(4);
        if bytes[0] == 0x77 && bytes[1] == 0x4F && bytes[2] == 0x46 && bytes[3] == 0x46 {
            assert(t =~= woff1_signature());
        } else if t == woff1_signature() {
            assert(t[0] == bytes[0] && t[1] == bytes[1] && t[2] == bytes[2] && t[3] == bytes[3]);
        }
        if bytes[0] == 0x77 && bytes[1] == 0x4F && bytes[2] == 0x46 && bytes[3] == 0x32 {
            assert(t =~= woff2_signature());
        } else if t == woff2_signature() {
            assert(t[0] == bytes[0] && t[1] == bytes[1] && t[2] == bytes[2] && t[3] == bytes[3]);
        }
    }
}

/// Law: decoding gives back the input itself unless the input starts with a
/// WOFF signature and that format's decompression succeeds, in which case it
/// gives the decompressed bytes.
pub proof fn law_decoded_font(bytes: Seq<u8>)
    ensures
        spec_font_container(bytes) == FontContainer::Plain ==> spec_decoded_font(bytes) == bytes,
        spec_font_container(bytes) == FontContainer::Woff1 ==> (woff1_decompressed(bytes) matches Some(
            v,
        ) ==> spec_decoded_font(bytes) == v),
        spec_font_container(bytes) == FontContainer::Woff2 ==> (woff2_decompressed(bytes) matches Some(
            v,
        ) ==> spec_decoded_font(bytes) == v),
        falls_back(bytes) ==> spec_decoded_font(bytes) == bytes,
{
}

} // verus!
