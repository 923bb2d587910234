use vstd::prelude::*;

use crate::number::parse_u32_spec;
use crate::process::{ancestors_spec, is_match, is_process_running, opt_view, ProcessRecord};
use crate::script::{reshapes, CenterMode, GeometryPolicy, WindowSelection};
use crate::text::split_on;
use crate::version::major_version;

verus! {

/// Why a request cannot be carried out.
#[derive(Clone, Copy, Debug, PartialEq, Eq, Structural)]
pub enum WarpError {
    /// No window filter was given and the focused window was not asked for.
    NoFilter,
    /// More than one way of selecting a window was given.
    ConflictingFilters,
    /// The window manager's version string does not start with a number.
    InvalidVersion,
    /// Asking for window information needs version 6 or later.
    UnsupportedVersion,
}

/// What to do once the process table has been consulted.
#[derive(Clone, Copy, Debug, PartialEq, Eq, Structural)]
pub enum Action {
    /// Run the selection program on an existing window.
    RaiseExisting,
    /// Start the fallback command, then shape the window that it maps.
    LaunchThenShape,
    /// Start the fallback command and leave its window as it comes.
    Launch,
    /// Nothing matches and there is nothing to start.
    Nothing,
}

pub open spec fn given(s: &str) -> bool {
    s@.len() > 0
}

pub open spec fn count_given(filter: &str, filter_alt: &str, filter_regex: &str, focused: bool) -> int {
    (if given(filter) { 1int } else { 0 }) + (if given(filter_alt) { 1int } else { 0 }) + (if given(
        filter_regex,
    ) {
        1int
    } else {
        0
    }) + (if focused { 1int } else { 0 })
}

/// The one window selection among the filters given (empty text: not given).
pub fn selection_from_filters(filter: &str, filter_alt: &str, filter_regex: &str, focused: bool) -> (r:
    Result<WindowSelection, WarpError>)
    ensures
        count_given(filter, filter_alt, filter_regex, focused) == 0 <==> r == Err::<
            WindowSelection,
            WarpError,
        >(WarpError::NoFilter),
        count_given(filter, filter_alt, filter_regex, focused) > 1 <==> r == Err::<
            WindowSelection,
            WarpError,
        >(WarpError::ConflictingFilters),
        count_given(filter, filter_alt, filter_regex, focused) == 1 <==> r is Ok,
        r is Ok ==> match r->Ok_0 {
            WindowSelection::Focused => focused,
            WindowSelection::ByClassExact(f) => f@ == filter@ && given(filter),
            WindowSelection::ByTitleRegex(f) => f@ == filter_alt@ && given(filter_alt),
            WindowSelection::ByClassRegex(f) => f@ == filter_regex@ && given(filter_regex),
        },
{
    let a = !filter.is_empty();
    let b = !filter_alt.is_empty();
    let c = !filter_regex.is_empty();
    let n: u32 = (if a { 1u32 } else { 0 }) + (if b { 1u32 } else { 0 }) + (if c { 1u32 } else { 0 }) + (
    if focused {
        1u32
    } else {
        0
    });
    if n == 0 {
        Err(WarpError::NoFilter)
    } else if n > 1 {
        Err(WarpError::ConflictingFilters)
    } else if focused {
        Ok(WindowSelection::Focused)
    } else if a {
        Ok(WindowSelection::ByClassExact(String::from_str(filter)))
    } else if b {
        Ok(WindowSelection::ByTitleRegex(String::from_str(filter_alt)))
    } else {
        Ok(WindowSelection::ByClassRegex(String::from_str(filter_regex)))
    }
}

/// The centering used when an existing window is raised: a window is centered
/// "initially" only when it was just launched.
pub fn raise_center(center: Option<CenterMode>) -> (r: Option<CenterMode>)
    ensures
        r == (if center == Some(CenterMode::InitialOnly) {
            None
        } else {
            center
        }),
{
    match center {
        Some(CenterMode::InitialOnly) => None,
        other => other,
    }
}

/// What to do: act on a window when the focused one was asked for or the target
/// runs; otherwise start the fallback command if there is one, and shape its
/// window when the policy moves or sizes it.
pub fn choose_action(filter_focused: bool, is_running: bool, has_command: bool, geometry: &GeometryPolicy) -> (r:
    Action)
    ensures
        r == (if is_running || filter_focused {
            Action::RaiseExisting
        } else if !has_command {
            Action::Nothing
        } else if reshapes(*geometry) {
            Action::LaunchThenShape
        } else {
            Action::Launch
        }),
{
    let g = geometry;
    if is_running || filter_focused {
        Action::RaiseExisting
    } else if !has_command {
        Action::Nothing
    } else if g.center.is_some() || g.width.is_some() || g.height.is_some() || g.scale_factor.is_some()
        || g.min_width.is_some() || g.max_width.is_some() || g.min_height.is_some()
        || g.max_height.is_some() {
        Action::LaunchThenShape
    } else {
        Action::Launch
    }
}

/// Whether a process named by `process` runs, as `is_process_running` decides; an
/// empty name names nothing.
pub fn target_running(
    table: &Vec<ProcessRecord>,
    self_pid: u32,
    process: &str,
    user_filter: Option<&str>,
) -> (r: bool)
    requires
        table.len() < usize::MAX,
    ensures
        r == (process@.len() > 0 && exists|i: int|
            0 <= i < table.len() && is_match(
                #[trigger] table@[i],
                ancestors_spec(table@, self_pid),
                process@,
                opt_view(user_filter),
            )),
{
    if process.is_empty() {
        false
    } else {
        is_process_running(table, self_pid, process, user_filter)
    }
}

/// Whether the window manager of version `version` can report on the active
/// window: it must be version 6 or later.
pub fn info_supported(version: &str) -> (r: Result<(), WarpError>)
    ensures
        match parse_u32_spec(split_on(version@, '.')[0]) {
            None => r == Err::<(), WarpError>(WarpError::InvalidVersion),
            Some(m) => if m >= 6 {
                r is Ok
            } else {
                r == Err::<(), WarpError>(WarpError::UnsupportedVersion)
            },
        },
{
    match major_version(version) {
        None => Err(WarpError::InvalidVersion),
        Some(m) => if m >= 6 {
            Ok(())
        } else {
            Err(WarpError::UnsupportedVersion)
        },
    }
}

} // verus!
