//! The orchestrator's decision logic: validating a transform request,
//! inferring the source decoder from the file extension, and turning one
//! resolved input into the per-format output plan — fingerprint, output file
//! name, and the directory the artifact lands in under the output directory.
//!
//! Everything here is a pure function of the request and the source bytes;
//! reading sources, creating directories, running the codecs and writing
//! artifacts are the caller's work, done in the order this plan gives.

use vstd::prelude::*;
use vstd::string::StrSliceExecFns;
use vstd::string::StringExecFns;

use crate::fingerprint::{fingerprint, fingerprint_hex, fingerprint_hex_spec, fingerprint_spec,
    RESIZE_SEED};
use crate::format::{ext_spec, format_seed_spec, OutputFormat};
use crate::manifest::Manifest;
use crate::manifest::record_spec;
use crate::sandbox::{comp_seq, join_spec, last_dot, lemma_last_dot_at, lemma_no_dot, stem_spec,
    str_eq, strip_extension, join_components};

verus! {

/// A request that cannot be run at all.
#[derive(Clone, Copy, Debug, PartialEq, Eq, Structural)]
pub enum ConfigError {
    /// No output format was selected.
    NoFormatSelected,
    /// A manifest was requested without a variant name.
    ManifestWithoutVariant,
    /// No input images were given.
    NoImages,
}

/// Check a request before any work starts: at least one output format, a
/// variant name whenever a manifest is active, and at least one input.
pub fn validate(n_images: usize, n_formats: usize, has_variant: bool, has_manifest: bool) -> (r:
    Result<(), ConfigError>)
    ensures
        r is Ok <==> (n_formats > 0 && (has_manifest ==> has_variant) && n_images > 0),
        r == Result::<(), ConfigError>::Err(ConfigError::NoFormatSelected) <==> n_formats == 0,
        r == Result::<(), ConfigError>::Err(ConfigError::ManifestWithoutVariant) <==> (n_formats
            > 0 && has_manifest && !has_variant),
        r == Result::<(), ConfigError>::Err(ConfigError::NoImages) <==> (n_formats > 0 && (
        has_manifest ==> has_variant) && n_images == 0),
{
    if n_formats == 0 {
        Err(ConfigError::NoFormatSelected)
    } else if has_manifest && !has_variant {
        Err(ConfigError::ManifestWithoutVariant)
    } else if n_images == 0 {
        Err(ConfigError::NoImages)
    } else {
        Ok(())
    }
}

/// The decoder an input is handed to, keyed by its file extension.
#[derive(Clone, Copy, Debug, PartialEq, Eq, Structural)]
pub enum SourceKind {
    Jpeg,
    Png,
}

/// Why an input cannot be decoded at all.
#[derive(Clone, Copy, Debug, PartialEq, Eq, Structural)]
pub enum SourceError {
    /// The file name has an extension, but no decoder is keyed by it.
    UnsupportedFormat,
    /// The file name has no extension to guess the image format from.
    MissingExtension,
}

/// The extension of a file name: what follows the last `.`, absent when the
/// name has no `.` or its only `.` is its first character.
pub open spec fn ext_of(name: Seq<char>) -> Option<Seq<char>> {
    let p = last_dot(name);
    if p > 0 {
        Option::Some(name.skip(p + 1))
    } else {
        Option::<Seq<char>>::None
    }
}

/// The decoder a file name selects: `jpg` names the JPEG decoder and `png`
/// the PNG decoder; any other extension is unsupported, and a name without
/// an extension gives no format to guess from.
pub open spec fn source_kind_spec(name: Seq<char>) -> Result<SourceKind, SourceError> {
    match ext_of(name) {
        Option::None => Result::Err(SourceError::MissingExtension),
        Option::Some(e) => {
            if e == seq!['j', 'p', 'g'] {
                Result::Ok(SourceKind::Jpeg)
            } else if e == seq!['p', 'n', 'g'] {
                Result::Ok(SourceKind::Png)
            } else {
                Result::Err(SourceError::UnsupportedFormat)
            }
        },
    }
}

/// Pick the decoder for a source file name.
pub fn source_kind(name: &str) -> (r: Result<SourceKind, SourceError>)
    ensures
        r == source_kind_spec(name@),
{
    let n = name.unicode_len();
    let mut i: usize = n;
    while i > 0
        invariant
            i <= n,
            n == name@.len(),
            forall|j: int| i <= j < n ==> name@[j] != '.',
        decreases i,
    {
        if name.get_char(i - 1) == '.' {
            proof {
                lemma_last_dot_at(name@, i - 1);
            }
            if i - 1 == 0 {
                return Err(SourceError::MissingExtension);
            }
            let ext = name.substring_char(i, n);
            proof {
                assert(ext@ =~= name@.skip(i as int));
                assert(ext_of(name@) == Option::Some(name@.skip(i as int)));
            }
            let is_jpg = str_eq(ext, "jpg");
            let is_png = str_eq(ext, "png");
            proof {
                reveal_strlit("jpg");
                reveal_strlit("png");
                assert("jpg"@ =~= seq!['j', 'p', 'g']);
                assert("png"@ =~= seq!['p', 'n', 'g']);
                assert(is_jpg == (name@.skip(i as int) == seq!['j', 'p', 'g']));
                assert(is_png == (name@.skip(i as int) == seq!['p', 'n', 'g']));
            }
            return if is_jpg {
                Ok(SourceKind::Jpeg)
            } else if is_png {
                Ok(SourceKind::Png)
            } else {
                Err(SourceError::UnsupportedFormat)
            };
        }
        i = i - 1;
    }
    proof {
        lemma_no_dot(name@);
    }
    Err(SourceError::MissingExtension)
}

/// The file name of one output artifact. With a manifest active the
/// fingerprint is embedded (`<stem>-<16 hex digits>.<ext>`); without one the
/// name is simply `<stem>.<ext>` and the fingerprint serves diagnostics
/// only.
pub open spec fn output_file_name_spec(stem: Seq<char>, fp: u64, manifest_mode: bool, ext: Seq<
    char,
>) -> Seq<char> {
    if manifest_mode {
        stem + seq!['-'] + fingerprint_hex_spec(fp) + seq!['.'] + ext
    } else {
        stem + seq!['.'] + ext
    }
}

/// One planned output artifact of one source image.
#[derive(Debug)]
pub struct PlannedOutput {
    /// The format this artifact is encoded to.
    pub format: OutputFormat,
    /// Diagnostic and naming fingerprint of (source bytes, seeds, variant).
    pub fingerprint: u64,
    /// File name of the artifact.
    pub file_name: String,
    /// Directory components of the artifact under the output directory:
    /// the source's base-relative directory, kept as it was.
    pub rel_dir: Vec<String>,
}

/// The variant bytes a fingerprint is computed over, for an optional
/// variant name.
pub open spec fn opt_variant_bytes(variant: Option<Seq<char>>) -> Option<Seq<u8>> {
    match variant {
        Option::None => Option::<Seq<u8>>::None,
        Option::Some(v) => Option::Some(vstd::utf8::encode_utf8(v)),
    }
}

/// The view of an optional variant name.
pub open spec fn opt_view(variant: Option<&String>) -> Option<Seq<char>> {
    match variant {
        Option::None => Option::<Seq<char>>::None,
        Option::Some(v) => Option::Some(v@),
    }
}

/// What a correct plan for one (source, format) pair holds: the fingerprint
/// of the source bytes under the resize stage's seed and this format's seed
/// (with the variant mixed in when one is active), the file name derived
/// from the source's stem, and the source's base-relative directory.
pub open spec fn planned_ok(
    p: PlannedOutput,
    rel: Seq<Seq<char>>,
    data: Seq<u8>,
    variant: Option<Seq<char>>,
    manifest_mode: bool,
    format: OutputFormat,
) -> bool {
    &&& p.format == format
    &&& p.fingerprint == fingerprint_spec(
        data,
        RESIZE_SEED,
        format_seed_spec(format),
        opt_variant_bytes(variant),
    )
    &&& p.file_name@ == output_file_name_spec(
        stem_spec(rel.last()),
        p.fingerprint,
        manifest_mode,
        ext_spec(format),
    )
    &&& comp_seq(p.rel_dir@) == rel.drop_last()
}

/// Plan one output artifact: one (source image, output format) pair.
pub fn plan_one(
    rel: &Vec<String>,
    data: &[u8],
    variant: Option<&String>,
    manifest_mode: bool,
    format: OutputFormat,
) -> (r: PlannedOutput)
    requires
        rel@.len() > 0,
    ensures
        planned_ok(r, comp_seq(rel@), data@, opt_view(variant), manifest_mode, format),
{
    proof {
        reveal_strlit("-");
        reveal_strlit(".");
        assert("-"@ =~= seq!['-']);
        assert("."@ =~= seq!['.']);
    }
    let fp = match variant {
        Option::None => fingerprint(data, RESIZE_SEED, format.seed(), Option::None),
        Option::Some(v) => fingerprint(data, RESIZE_SEED, format.seed(), Option::Some(v.as_str())),
    };
    let last = &rel[rel.len() - 1];
    let mut file_name = strip_extension(last.as_str());
    if manifest_mode {
        let hex = fingerprint_hex(fp);
        file_name.append("-");
        file_name.append(hex.as_str());
    }
    file_name.append(".");
    file_name.append(format.ext());
    let mut rel_dir: Vec<String> = Vec::new();
    let mut i: usize = 0;
    while i < rel.len() - 1
        invariant
            rel@.len() > 0,
            i <= rel@.len() - 1,
            comp_seq(rel_dir@) =~= comp_seq(rel@).subrange(0, i as int),
        decreases rel@.len() - 1 - i,
    {
        let ghost pre = rel_dir@;
        rel_dir.push(rel[i].clone());
        i = i + 1;
        proof {
            assert(comp_seq(rel_dir@) =~= comp_seq(pre).push(comp_seq(rel@)[i - 1]));
        }
    }
    proof {
        assert(comp_seq(rel@).subrange(0, rel@.len() - 1) =~= comp_seq(rel@).drop_last());
        assert(comp_seq(rel@).last() == last@);
        if manifest_mode {
            assert(file_name@ =~= stem_spec(last@) + seq!['-'] + fingerprint_hex_spec(fp)
                + seq!['.'] + ext_spec(format));
        } else {
            assert(file_name@ =~= stem_spec(last@) + seq!['.'] + ext_spec(format));
        }
    }
    PlannedOutput { format, fingerprint: fp, file_name, rel_dir }
}

/// Plan every requested format of one source image, in the order the
/// formats were requested.
pub fn plan_outputs(
    rel: &Vec<String>,
    data: &[u8],
    variant: Option<&String>,
    manifest_mode: bool,
    formats: &Vec<OutputFormat>,
) -> (r: Vec<PlannedOutput>)
    requires
        rel@.len() > 0,
    ensures
        r@.len() == formats@.len(),
        forall|i: int|
            0 <= i < r@.len() ==> planned_ok(
                #[trigger] r@[i],
                comp_seq(rel@),
                data@,
                opt_view(variant),
                manifest_mode,
                formats@[i],
            ),
{
    let mut r: Vec<PlannedOutput> = Vec::new();
    let mut i: usize = 0;
    while i < formats.len()
        invariant
            rel@.len() > 0,
            i <= formats@.len(),
            r@.len() == i,
            forall|j: int|
                0 <= j < i ==> planned_ok(
                    #[trigger] r@[j],
                    comp_seq(rel@),
                    data@,
                    opt_view(variant),
                    manifest_mode,
                    formats@[j],
                ),
        decreases formats@.len() - i,
    {
        let p = plan_one(rel, data, variant, manifest_mode, formats[i]);
        r.push(p);
        i = i + 1;
    }
    r
}

/// The logical name a source image is recorded under in the manifest: its
/// base-relative path with the extension stripped, components joined with
/// `/`.
pub open spec fn logical_name_spec(rel: Seq<Seq<char>>) -> Seq<char>
    recommends
        rel.len() > 0,
{
    join_spec(rel.drop_last().push(stem_spec(rel.last())))
}

/// The logical manifest name of a source image given by its base-relative
/// components.
pub fn logical_name(rel: &Vec<String>) -> (r: String)
    requires
        rel@.len() > 0,
    ensures
        r@ == logical_name_spec(comp_seq(rel@)),
{
    let mut stemmed: Vec<String> = Vec::new();
    let mut i: usize = 0;
    while i < rel.len() - 1
        invariant
            rel@.len() > 0,
            i <= rel@.len() - 1,
            comp_seq(stemmed@) =~= comp_seq(rel@).subrange(0, i as int),
        decreases rel@.len() - 1 - i,
    {
        let ghost pre = stemmed@;
        stemmed.push(rel[i].clone());
        i = i + 1;
        proof {
            assert(comp_seq(stemmed@) =~= comp_seq(pre).push(comp_seq(rel@)[i - 1]));
        }
    }
    let ghost pre = stemmed@;
    stemmed.push(strip_extension(rel[rel.len() - 1].as_str()));
    proof {
        assert(comp_seq(stemmed@) =~= comp_seq(pre).push(stem_spec(comp_seq(rel@).last())));
        assert(comp_seq(stemmed@) =~= comp_seq(rel@).drop_last().push(
            stem_spec(comp_seq(rel@).last()),
        ));
    }
    join_components(&stemmed)
}

/// The path of a planned artifact relative to the output directory, as it
/// is recorded in the manifest.
pub open spec fn rel_out_path_spec(p: PlannedOutput) -> Seq<char> {
    join_spec(comp_seq(p.rel_dir@).push(p.file_name@))
}

/// Render a planned artifact's output-directory-relative path.
pub fn rel_out_path(p: &PlannedOutput) -> (r: String)
    ensures
        r@ == rel_out_path_spec(*p),
{
    let mut parts: Vec<String> = Vec::new();
    let mut i: usize = 0;
    while i < p.rel_dir.len()
        invariant
            i <= p.rel_dir@.len(),
            comp_seq(parts@) =~= comp_seq(p.rel_dir@).subrange(0, i as int),
        decreases p.rel_dir@.len() - i,
    {
        let ghost pre = parts@;
        parts.push(p.rel_dir[i].clone());
        i = i + 1;
        proof {
            assert(comp_seq(parts@) =~= comp_seq(pre).push(comp_seq(p.rel_dir@)[i - 1]));
        }
    }
    let ghost pre = parts@;
    parts.push(p.file_name.clone());
    proof {
        assert(comp_seq(p.rel_dir@).subrange(0, p.rel_dir@.len() as int) =~= comp_seq(p.rel_dir@));
        assert(comp_seq(parts@) =~= comp_seq(p.rel_dir@).push(p.file_name@));
    }
    join_components(&parts)
}

/// Record one planned artifact in the manifest, under the image's logical
/// name, the active variant, and the artifact's format extension.
pub fn record_output(m: &mut Manifest, rel: &Vec<String>, variant: &String, p: &PlannedOutput)
    requires
        old(m).wf(),
        rel@.len() > 0,
    ensures
        final(m).wf(),
        final(m)@ == record_spec(
            old(m)@,
            logical_name_spec(comp_seq(rel@)),
            variant@,
            ext_spec(p.format),
            rel_out_path_spec(*p),
        ),
{
    let name = logical_name(rel);
    let ext_string = String::from_str(p.format.ext());
    let out = rel_out_path(p);
    m.record(&name, variant, &ext_string, &out);
}

} // verus!
