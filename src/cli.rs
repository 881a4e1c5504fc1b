//! Helpers shared by the command-line front ends.

use crate::algorithms::build_scene;
use crate::base::seed::normalized;
use crate::render::svg::render_svg;
use crate::{is_logo_svg, options_valid, LogoGenError, Preset, RenderOptions};
use vstd::prelude::*;

verus! {

/// The monogram badge document of `input`, as the initials debugging tool
/// prints it.
pub fn debug_initials_svg(input: &str, opts: &RenderOptions) -> (r: Result<String, LogoGenError>)
    ensures
        !options_valid(*opts) ==> r matches Err(LogoGenError::InvalidOptions(_)),
        options_valid(*opts) && normalized(input@).len() == 0 ==> r matches Err(
            LogoGenError::InvalidOptions(_),
        ),
        options_valid(*opts) && normalized(input@).len() > 0 ==> (r matches Ok(svg)
            && is_logo_svg(Preset::MonogramBadge, normalized(input@), *opts, svg@)),
{
    let scene = build_scene(input, Preset::MonogramBadge, opts)?;
    let svg = render_svg(&scene, opts);
    assert(options_valid(*opts) && normalized(input@).len() > 0 ==> crate::algorithms::preset_scene(
        Preset::MonogramBadge,
        normalized(input@),
        *opts,
        scene@,
    ));
    svg
}

} // verus!
