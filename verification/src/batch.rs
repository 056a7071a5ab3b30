//! One vector document for each pair of colors, each under its file name.

use vstd::prelude::*;
use svg::node::element::SVG;
use crate::color::{ColorSpec, ErrorView, ReticleError};
use crate::config::{ConfigView, CrosshairConfig};
use crate::pairs::{color_pairs_of, load_color_pairs, pairs_view, PairView};
use crate::text::{decimal, push_decimal};
use crate::vector::{generate_svg, is_rendering};

verus! {

/// A rendered document and the name of the file it belongs in.
pub struct BatchArtifact {
    pub filename: String,
    pub document: SVG,
}

/// The name of the file for a canvas of `size` pixels in the colors whose
/// digits are `rim_hex` and `arm_hex`.
pub open spec fn batch_filename(size: nat, rim_hex: Seq<char>, arm_hex: Seq<char>) -> Seq<char> {
    "xhMan_"@ + decimal(size) + "px-rim-"@ + rim_hex + "_arms-"@ + arm_hex + ".svg"@
}

/// On one canvas size, two pairs of six digits each get the same file name
/// exactly where they are the same pair: pairs that differ never share a
/// file, and a pair that comes twice is written to one file twice.
pub proof fn lemma_file_names_tell_pairs_apart(
    size: nat,
    rim: Seq<char>,
    arm: Seq<char>,
    other_rim: Seq<char>,
    other_arm: Seq<char>,
)
    requires
        rim.len() == 6,
        arm.len() == 6,
        other_rim.len() == 6,
        other_arm.len() == 6,
    ensures
        batch_filename(size, rim, arm) == batch_filename(size, other_rim, other_arm) <==> rim
            == other_rim && arm == other_arm,
{
    let head = "xhMan_"@ + decimal(size) + "px-rim-"@;
    let mid = "_arms-"@;
    let a = batch_filename(size, rim, arm);
    let b = batch_filename(size, other_rim, other_arm);
    let at = head.len() as int;
    let then = at + 6 + mid.len();
    assert(a.subrange(at, at + 6) =~= rim);
    assert(b.subrange(at, at + 6) =~= other_rim);
    assert(a.subrange(then, then + 6) =~= arm);
    assert(b.subrange(then, then + 6) =~= other_arm);
}

/// Whether `artifact` is what the pair `pair` gives with `config`: the
/// document of `config` in the pair's colors, both opaque, under the name
/// made of the canvas size and the pair's digits.
pub open spec fn is_artifact_of(artifact: BatchArtifact, config: ConfigView, pair: PairView)
    -> bool {
    &&& artifact.filename@ == batch_filename(config.size, pair.0.hex, pair.1.hex)
    &&& is_rendering(artifact.document, config.with_colors(pair.0.rgb, pair.1.rgb))
}

/// Whether `artifacts` holds what each of `pairs` gives with `config`, in
/// the order of the pairs.
pub open spec fn is_batch_of(
    artifacts: Seq<BatchArtifact>,
    config: ConfigView,
    pairs: Seq<PairView>,
) -> bool {
    &&& artifacts.len() == pairs.len()
    &&& forall|i: int|
        0 <= i < pairs.len() ==> is_artifact_of(#[trigger] artifacts[i], config, pairs[i])
}

/// The name of the file for a canvas of `size` pixels in the colors `rim`
/// and `arm`.
pub fn artifact_filename(size: u32, rim: &ColorSpec, arm: &ColorSpec) -> (name: String)
    ensures
        name@ == batch_filename(size as nat, rim@.hex, arm@.hex),
{
    let mut name = String::new();
    name.append("xhMan_");
    push_decimal(&mut name, size as u64);
    name.append("px-rim-");
    name.append(rim.hex.as_str());
    name.append("_arms-");
    name.append(arm.hex.as_str());
    name.append(".svg");
    assert(name@ =~= batch_filename(size as nat, rim@.hex, arm@.hex));
    name
}

/// Renders `config` in the colors `rim` and `arm`, both opaque whatever the
/// opacity of the colors of `config`.
pub fn render_pair(config: &CrosshairConfig, rim: &ColorSpec, arm: &ColorSpec) -> (artifact:
    BatchArtifact)
    ensures
        is_artifact_of(artifact, config@, (rim@, arm@)),
{
    let colored = config.with_colors(rim.rgb, arm.rgb);
    BatchArtifact {
        filename: artifact_filename(config.size, rim, arm),
        document: generate_svg(&colored),
    }
}

/// Renders `config` once for each of `pairs`, in their order.
pub fn render_batch(config: &CrosshairConfig, pairs: &Vec<(ColorSpec, ColorSpec)>) -> (artifacts:
    Vec<BatchArtifact>)
    ensures
        is_batch_of(artifacts@, config@, pairs_view(pairs@)),
{
    let mut artifacts: Vec<BatchArtifact> = Vec::new();
    let mut k: usize = 0;
    while k < pairs.len()
        invariant
            k <= pairs@.len(),
            artifacts@.len() == k,
            forall|i: int|
                0 <= i < k ==> is_artifact_of(
                    #[trigger] artifacts@[i],
                    config@,
                    pairs_view(pairs@)[i],
                ),
        decreases pairs@.len() - k,
    {
        let artifact = render_pair(config, &pairs[k].0, &pairs[k].1);
        artifacts.push(artifact);
        k = k + 1;
    }
    artifacts
}

/// Renders `config` once for each pair of a list of color pairs.
///
/// The list is read as [`load_color_pairs`] reads it. Where it holds an
/// error, that error comes back and nothing is rendered; else one artifact
/// comes back for each pair, in the order of the list. Two pairs with the
/// same digits get the same file name.
pub fn generate_batch_svgs(config: &CrosshairConfig, csv: &str) -> (r: Result<
    Vec<BatchArtifact>,
    ReticleError,
>)
    ensures
        r is Ok <==> color_pairs_of(csv@) is Ok,
        r is Ok ==> is_batch_of(r->Ok_0@, config@, color_pairs_of(csv@)->Ok_0),
        r is Err ==> color_pairs_of(csv@) == Err::<Seq<PairView>, ErrorView>(r->Err_0@),
{
    match load_color_pairs(csv) {
        Ok(pairs) => Ok(render_batch(config, &pairs)),
        Err(e) => Err(e),
    }
}

} // verus!
