//! The managed sections of a hosts file: one of IPv4 entries and one of IPv6
//! entries, each between its own pair of marker lines, and the fixed order in
//! which the requested operations are applied to them.

use vstd::prelude::*;
use crate::laws::lemma_remove_undoes_upsert;
use crate::section::{remove, remove_section, upsert, upsert_section, MalformedSection};

verus! {

/// The line that opens the section of IPv4 entries.
pub const V4_START_MARKER: &'static str = "# BEGIN GoogleHosts IPV4";

/// The line that closes the section of IPv4 entries.
pub const V4_END_MARKER: &'static str = "# END GoogleHosts IPV4";

/// The line that opens the section of IPv6 entries.
pub const V6_START_MARKER: &'static str = "# BEGIN GoogleHosts IPV6";

/// The line that closes the section of IPv6 entries.
pub const V6_END_MARKER: &'static str = "# END GoogleHosts IPV6";

/// One step of an edit: `step(lines)` where `wanted`, else `lines` as they are.
pub open spec fn when(wanted: bool, step: Result<Seq<Seq<char>>, (int, int)>, lines: Seq<
    Seq<char>,
>) -> Result<Seq<Seq<char>>, (int, int)> {
    if wanted {
        step
    } else {
        Ok(lines)
    }
}

/// The lines after the IPv4 section was upserted, where asked for.
pub open spec fn after_update_v4(
    lines: Seq<Seq<char>>,
    v4_body: Seq<Seq<char>>,
    update_v4: bool,
) -> Result<Seq<Seq<char>>, (int, int)> {
    when(update_v4, upsert(lines, V4_START_MARKER@, V4_END_MARKER@, v4_body), lines)
}

/// The lines after the IPv6 section was upserted, where asked for.
pub open spec fn after_update_v6(
    lines: Seq<Seq<char>>,
    v6_body: Seq<Seq<char>>,
    update_v6: bool,
) -> Result<Seq<Seq<char>>, (int, int)> {
    when(update_v6, upsert(lines, V6_START_MARKER@, V6_END_MARKER@, v6_body), lines)
}

/// The lines after the IPv4 section was removed, where asked for.
pub open spec fn after_remove_v4(lines: Seq<Seq<char>>, remove_v4: bool) -> Result<
    Seq<Seq<char>>,
    (int, int),
> {
    when(remove_v4, remove(lines, V4_START_MARKER@, V4_END_MARKER@), lines)
}

/// The lines after the IPv6 section was removed, where asked for.
pub open spec fn after_remove_v6(lines: Seq<Seq<char>>, remove_v6: bool) -> Result<
    Seq<Seq<char>>,
    (int, int),
> {
    when(remove_v6, remove(lines, V6_START_MARKER@, V6_END_MARKER@), lines)
}

/// The whole edit. The requested operations are applied in a fixed order,
/// each to what the one before it left: update of the IPv4 section, update of
/// the IPv6 section, removal of the IPv4 section, removal of the IPv6
/// section. The first error ends the edit.
pub open spec fn edit(
    lines: Seq<Seq<char>>,
    v4_body: Seq<Seq<char>>,
    v6_body: Seq<Seq<char>>,
    update_v4: bool,
    update_v6: bool,
    remove_v4: bool,
    remove_v6: bool,
) -> Result<Seq<Seq<char>>, (int, int)> {
    match after_update_v4(lines, v4_body, update_v4) {
        Err(at) => Err(at),
        Ok(first) => match after_update_v6(first, v6_body, update_v6) {
            Err(at) => Err(at),
            Ok(second) => match after_remove_v4(second, remove_v4) {
                Err(at) => Err(at),
                Ok(third) => after_remove_v6(third, remove_v6),
            },
        },
    }
}

/// Applies the requested operations to the lines of a hosts file and returns
/// the lines to write back: update of the IPv4 section from
/// `v4_hosts_lines`, update of the IPv6 section from `v6_hosts_lines`,
/// removal of the IPv4 section, removal of the IPv6 section, in this order
/// whatever was asked for. An operation that finds its markers out of order
/// ends the edit with its error, and no lines are returned.
pub fn manage_hosts(
    etc_hosts_lines: Vec<String>,
    v4_hosts_lines: &[String],
    v6_hosts_lines: &[String],
    update_v4: bool,
    update_v6: bool,
    remove_v4: bool,
    remove_v6: bool,
) -> (result: Result<Vec<String>, MalformedSection>)
    ensures
        match result {
            Ok(out) => edit(
                etc_hosts_lines.deep_view(),
                v4_hosts_lines.deep_view(),
                v6_hosts_lines.deep_view(),
                update_v4,
                update_v6,
                remove_v4,
                remove_v6,
            ) == Ok::<Seq<Seq<char>>, (int, int)>(out.deep_view()),
            Err(e) => edit(
                etc_hosts_lines.deep_view(),
                v4_hosts_lines.deep_view(),
                v6_hosts_lines.deep_view(),
                update_v4,
                update_v6,
                remove_v4,
                remove_v6,
            ) == Err::<Seq<Seq<char>>, (int, int)>(e.positions()),
        },
{
    let mut lines = etc_hosts_lines;
    if update_v4 {
        lines = match upsert_section(lines, V4_START_MARKER, V4_END_MARKER, v4_hosts_lines) {
            Ok(next) => next,
            Err(e) => { return Err(e); },
        };
    }
    if update_v6 {
        lines = match upsert_section(lines, V6_START_MARKER, V6_END_MARKER, v6_hosts_lines) {
            Ok(next) => next,
            Err(e) => { return Err(e); },
        };
    }
    if remove_v4 {
        lines = match remove_section(lines, V4_START_MARKER, V4_END_MARKER) {
            Ok(next) => next,
            Err(e) => { return Err(e); },
        };
    }
    if remove_v6 {
        lines = match remove_section(lines, V6_START_MARKER, V6_END_MARKER) {
            Ok(next) => next,
            Err(e) => { return Err(e); },
        };
    }
    Ok(lines)
}

/// The four marker lines differ from one another.
pub proof fn lemma_markers_distinct()
    ensures
        V4_START_MARKER@ != V4_END_MARKER@,
        V6_START_MARKER@ != V6_END_MARKER@,
        V4_START_MARKER@ != V6_START_MARKER@,
        V4_END_MARKER@ != V6_END_MARKER@,
        V4_START_MARKER@ != V6_END_MARKER@,
        V6_START_MARKER@ != V4_END_MARKER@,
{
    reveal_strlit("# BEGIN GoogleHosts IPV4");
    reveal_strlit("# END GoogleHosts IPV4");
    reveal_strlit("# BEGIN GoogleHosts IPV6");
    reveal_strlit("# END GoogleHosts IPV6");
    assert(V4_START_MARKER@[23] == '4' && V6_START_MARKER@[23] == '6');
    assert(V4_END_MARKER@[21] == '4' && V6_END_MARKER@[21] == '6');
}

/// An IPv4 section that is written and removed in one edit leaves no trace.
/// Where the file holds neither IPv4 marker and no line of the IPv4 body
/// equals the end marker, asking for the update and the removal of the IPv4
/// section together gives back the file as it was.
pub proof fn lemma_update_then_remove_v4(
    lines: Seq<Seq<char>>,
    v4_body: Seq<Seq<char>>,
    v6_body: Seq<Seq<char>>,
)
    requires
        !lines.contains(V4_START_MARKER@),
        !lines.contains(V4_END_MARKER@),
        !v4_body.contains(V4_END_MARKER@),
    ensures
        edit(lines, v4_body, v6_body, true, false, true, false) == Ok::<
            Seq<Seq<char>>,
            (int, int),
        >(lines),
{
    lemma_markers_distinct();
    lemma_remove_undoes_upsert(lines, V4_START_MARKER@, V4_END_MARKER@, v4_body);
}

/// An IPv6 section that is written and removed in one edit leaves no trace.
/// Where the file holds neither IPv6 marker and no line of the IPv6 body
/// equals the end marker, asking for the update and the removal of the IPv6
/// section together gives back the file as it was.
pub proof fn lemma_update_then_remove_v6(
    lines: Seq<Seq<char>>,
    v4_body: Seq<Seq<char>>,
    v6_body: Seq<Seq<char>>,
)
    requires
        !lines.contains(V6_START_MARKER@),
        !lines.contains(V6_END_MARKER@),
        !v6_body.contains(V6_END_MARKER@),
    ensures
        edit(lines, v4_body, v6_body, false, true, false, true) == Ok::<
            Seq<Seq<char>>,
            (int, int),
        >(lines),
{
    lemma_markers_distinct();
    lemma_remove_undoes_upsert(lines, V6_START_MARKER@, V6_END_MARKER@, v6_body);
}

} // verus!
