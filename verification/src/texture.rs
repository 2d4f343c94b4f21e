use vstd::prelude::*;

verus! {

/// The colour of a texel whose point escaped after `count` steps: red,
/// green and blue fall from `255` by `5`, `15` and `50` per step, taken
/// modulo `256`; alpha is `1`.
pub open spec fn texel_rgba(count: u8) -> Seq<u8> {
    seq![
        (255 - (count * 5) % 256) as u8,
        (255 - (count * 15) % 256) as u8,
        (255 - (count * 50) % 256) as u8,
        1u8,
    ]
}

/// The colour of one texel from its escape count.
pub fn texel_from_escape_count(count: u8) -> (rgba: [u8; 4])
    ensures
        rgba@ == texel_rgba(count),
        rgba[0] == 255 - (count * 5) % 256,
        rgba[1] == 255 - (count * 15) % 256,
        rgba[2] == 255 - (count * 50) % 256,
        rgba[3] == 1,
{
    let c = count as u32;
    let red: u8 = 255 - ((c * 5) % 256) as u8;
    let green: u8 = 255 - ((c * 15) % 256) as u8;
    let blue: u8 = 255 - ((c * 50) % 256) as u8;
    let rgba = [red, green, blue, 1u8];
    assert(rgba@ =~= texel_rgba(count));
    rgba
}

/// The texture bytes of a row-major list of escape counts: four bytes per
/// texel, in the order of the counts.
pub fn texels_from_escape_counts(counts: &Vec<u8>) -> (texels: Vec<u8>)
    requires
        4 * counts@.len() <= usize::MAX,
    ensures
        texels@.len() == 4 * counts@.len(),
        forall|m: int|
            0 <= m < texels@.len() ==> #[trigger] texels@[m] == texel_rgba(counts@[m / 4])[m % 4],
        forall|m: int|
            0 <= m < texels@.len() ==> #[trigger] texels@[m] == if m % 4 == 0 {
                255 - (counts@[m / 4] * 5) % 256
            } else if m % 4 == 1 {
                255 - (counts@[m / 4] * 15) % 256
            } else if m % 4 == 2 {
                255 - (counts@[m / 4] * 50) % 256
            } else {
                1
            },
{
    let mut texels: Vec<u8> = Vec::new();
    let mut i: usize = 0;
    while i < counts.len()
        invariant
            i <= counts@.len(),
            texels@.len() == 4 * i,
            forall|m: int|
                0 <= m < texels@.len() ==> #[trigger] texels@[m] == texel_rgba(counts@[m / 4])[m
                    % 4],
        decreases counts@.len() - i,
    {
        let rgba = texel_from_escape_count(counts[i]);
        let ghost before = texels@;
        texels.push(rgba[0]);
        texels.push(rgba[1]);
        texels.push(rgba[2]);
        texels.push(rgba[3]);
        proof {
            assert forall|m: int| 0 <= m < texels@.len() implies #[trigger] texels@[m]
                == texel_rgba(counts@[m / 4])[m % 4] by {
                if m >= 4 * i {
                    assert(m / 4 == i);
                    assert(texels@[m] == rgba@[m - 4 * i]);
                } else {
                    assert(texels@[m] == before[m]);
                }
            }
        }
        i = i + 1;
    }
    texels
}

} // verus!
