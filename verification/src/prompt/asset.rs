//! Prompt asset manifests and the content hash of an asset.
use crate::prompt::model::{prompt_kind_name, AssetRef, AssetStatus, PromptKind};
use crate::text::{join, join_strings, newline_pieces, text_lines, trim_end, trim_end_of, views_of};
use sha2::Digest;
use vstd::prelude::*;
use vstd::utf8::encode_utf8;

verus! {

#[derive(Debug, Clone)]
pub struct PromptAssetManifest {
    pub asset_id: AssetRef,
    pub kind: PromptKind,
    pub source_path: String,
    pub input_schema_ref: Option<String>,
    pub output_contract_ref: Option<String>,
    /// Labels by name, each name once: they are read from a map.
    pub labels: Vec<(String, String)>,
    pub hash: Option<String>,
    pub status: AssetStatus,
}

#[derive(Debug, Clone)]
pub struct CompiledPromptAsset {
    pub manifest: PromptAssetManifest,
    pub source_anchor: String,
    pub resolved_hash: String,
    pub template_name: String,
}

/// The SHA-256 digest of a byte string, as `sha2` computes it.
pub uninterp spec fn sha256_of(data: Seq<u8>) -> Seq<u8>;

/// Calls `sha2::Sha256::digest`. The contract names the digest and states
/// its length (the output size of `Sha256` is 32 bytes); the hash itself is
/// `sha2`'s.
#[verifier::external_body]
fn sha256(data: &Vec<u8>) -> (r: Vec<u8>)
    ensures
        r@ == sha256_of(data@),
        r@.len() == 32,
{
    sha2::Sha256::digest(data.as_slice()).to_vec()
}

/// A template with each line's trailing whitespace removed, lines joined by
/// `\n` (a final line break is dropped).
pub open spec fn normalized_template(t: Seq<char>) -> Seq<char> {
    join(text_lines(t).map_values(|l: Seq<char>| trim_end(l)), "\n"@)
}

pub open spec fn opt_bytes(o: Option<String>) -> Seq<u8> {
    match o {
        Some(s) => encode_utf8(s@),
        None => Seq::empty(),
    }
}

/// What is hashed: the normalized template, the asset id, the kind as a
/// JSON string, then the input schema and output contract references when
/// present.
pub open spec fn asset_hash_input(t: Seq<char>, m: PromptAssetManifest) -> Seq<u8> {
    encode_utf8(normalized_template(t)) + encode_utf8(m.asset_id@) + encode_utf8("\""@ + prompt_kind_name(m.kind) + "\""@)
        + opt_bytes(m.input_schema_ref) + opt_bytes(m.output_contract_ref)
}

pub open spec fn hex_digit(d: u8) -> char {
    if d < 10 {
        ((d + 48) as u8) as char
    } else {
        ((d + 87) as u8) as char
    }
}

/// Lower-case hexadecimal, two digits per byte.
pub open spec fn hex_text(bs: Seq<u8>) -> Seq<char>
    decreases bs.len(),
{
    if bs.len() == 0 {
        Seq::empty()
    } else {
        hex_text(bs.drop_last()) + seq![hex_digit(bs.last() / 16), hex_digit(bs.last() % 16)]
    }
}

pub open spec fn asset_hash(t: Seq<char>, m: PromptAssetManifest) -> Seq<char> {
    "sha256:"@ + hex_text(sha256_of(asset_hash_input(t, m)))
}

fn hex_char(d: u8) -> (c: char)
    requires
        d < 16,
    ensures
        c == hex_digit(d),
{
    if d < 10 {
        ((d + 48) as u8) as char
    } else {
        ((d + 87) as u8) as char
    }
}

fn append_bytes(out: &mut Vec<u8>, s: &str)
    ensures
        final(out)@ == old(out)@ + encode_utf8(s@),
{
    let mut b = s.as_bytes_vec();
    out.append(&mut b);
}

/// The content hash of an asset: `sha256:` and the hex SHA-256 of its
/// normalized template and identifying manifest fields.
pub fn compute_asset_hash(template_content: &str, manifest: &PromptAssetManifest) -> (r: String)
    ensures
        r@ == asset_hash(template_content@, *manifest),
{
    let pieces = newline_pieces(template_content);
    let mut trimmed: Vec<String> = Vec::new();
    let mut i: usize = 0;
    while i < pieces.len()
        invariant
            i <= pieces@.len(),
            trimmed@.len() == i,
            forall|j: int| 0 <= j < i ==> (#[trigger] trimmed@[j])@ == trim_end(pieces@[j]@),
        decreases pieces@.len() - i,
    {
        trimmed.push(crate::text::owned(trim_end_of(pieces[i].as_str())));
        i = i + 1;
    }
    assert(views_of(trimmed@) =~= text_lines(template_content@).map_values(|l: Seq<char>| trim_end(l)));
    let normalized = join_strings(&trimmed, "\n");
    let mut data: Vec<u8> = Vec::new();
    append_bytes(&mut data, normalized.as_str());
    append_bytes(&mut data, manifest.asset_id.as_str());
    let mut kind = String::new();
    kind.append("\"");
    kind.append(manifest.kind.name());
    kind.append("\"");
    append_bytes(&mut data, kind.as_str());
    match &manifest.input_schema_ref {
        Some(s) => append_bytes(&mut data, s.as_str()),
        None => {},
    }
    let ghost with_schema = data@;
    match &manifest.output_contract_ref {
        Some(c) => append_bytes(&mut data, c.as_str()),
        None => {},
    }
    assert(data@ =~= asset_hash_input(template_content@, *manifest));
    let digest = sha256(&data);
    let mut r = String::new();
    r.append("sha256:");
    let ghost start = r@;
    let mut k: usize = 0;
    assert(digest@.take(0) =~= Seq::<u8>::empty());
    while k < digest.len()
        invariant
            k <= digest@.len(),
            start == "sha256:"@,
            r@ == start + hex_text(digest@.take(k as int)),
        decreases digest@.len() - k,
    {
        let b = digest[k];
        assert(digest@.take(k + 1).drop_last() =~= digest@.take(k as int));
        assert(digest@.take(k + 1).last() == b);
        crate::text::push_char(&mut r, hex_char(b / 16));
        crate::text::push_char(&mut r, hex_char(b % 16));
        assert(r@ =~= start + hex_text(digest@.take(k + 1)));
        k = k + 1;
    }
    assert(digest@.take(digest@.len() as int) =~= digest@);
    r
}


/// The value of a lower-case hexadecimal digit.
pub open spec fn hex_value(c: char) -> int {
    if '0' <= c && c <= '9' {
        c as int - 48
    } else {
        c as int - 87
    }
}

/// A lower-case hexadecimal digit.
pub open spec fn is_hex_digit(c: char) -> bool {
    ('0' <= c && c <= '9') || ('a' <= c && c <= 'f')
}

proof fn lemma_hex_digit(d: u8)
    requires
        d < 16,
    ensures
        is_hex_digit(hex_digit(d)),
        hex_value(hex_digit(d)) == d,
{
}

/// Law: a digest's hexadecimal text has two lower-case digits per byte,
/// which read back, high digit first, as the byte; an asset hash is
/// `sha256:` and the digest's hexadecimal text.
pub proof fn law_hex_text_reads_back(bs: Seq<u8>, t: Seq<char>, m: PromptAssetManifest)
    ensures
        hex_text(bs).len() == 2 * bs.len(),
        forall|k: int| 0 <= k < hex_text(bs).len() ==> is_hex_digit(#[trigger] hex_text(bs)[k]),
        forall|i: int|
            0 <= i < bs.len() ==> hex_value(#[trigger] hex_text(bs)[2 * i]) * 16 + hex_value(hex_text(bs)[2 * i + 1])
                == bs[i],
        asset_hash(t, m) == "sha256:"@ + hex_text(sha256_of(asset_hash_input(t, m))),
    decreases bs.len(),
{
    if bs.len() > 0 {
        let init = bs.drop_last();
        law_hex_text_reads_back(init, t, m);
        let b = bs.last();
        lemma_hex_digit(b / 16);
        lemma_hex_digit(b % 16);
        let h = hex_text(bs);
        let hi = hex_text(init);
        assert(h == hi + seq![hex_digit(b / 16), hex_digit(b % 16)]);
        assert forall|k: int| 0 <= k < h.len() implies is_hex_digit(#[trigger] h[k]) by {
            if k < hi.len() {
                assert(h[k] == hi[k]);
            }
        }
        assert forall|i: int| 0 <= i < bs.len() implies hex_value(#[trigger] h[2 * i]) * 16 + hex_value(h[2 * i + 1])
            == bs[i] by {
            if i < init.len() {
                assert(h[2 * i] == hi[2 * i]);
                assert(h[2 * i + 1] == hi[2 * i + 1]);
                assert(init[i] == bs[i]);
            } else {
                assert(h[2 * i] == hex_digit(b / 16));
                assert(h[2 * i + 1] == hex_digit(b % 16));
            }
        }
    }
}

} // verus!
