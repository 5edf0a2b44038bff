//! Laws of the follow engine, stated over the same spec functions its
//! contracts use.

use crate::engine::ChangeKind;
use crate::engine::ReadPlan;
use crate::engine::outputs_of_lines;
use crate::engine::plan_for;
use crate::engine::seeded_positions;
use crate::engine::step_positions;
use crate::engine::tracked_paths_spec;
use crate::filter::MageLogIssues;
use crate::render::OutputLineView;
use crate::render::output_for_line;
use vstd::prelude::*;

verus! {

/// The offsets after a run of modification events for one file, reporting the
/// lengths in `lens` in order.
pub open spec fn run_modified(
    positions: Map<Seq<char>, u64>,
    path: Seq<char>,
    lens: Seq<u64>,
) -> Map<Seq<char>, u64>
    decreases lens.len(),
{
    if lens.len() == 0 {
        positions
    } else {
        step_positions(
            run_modified(positions, path, lens.drop_last()),
            ChangeKind::Modified,
            path,
            lens.last(),
        )
    }
}

/// Law: no event lowers a stored offset. A modification that reports growth
/// advances the file's offset to the reported length; every other offset is
/// untouched by any event.
pub proof fn lemma_offset_monotonic(
    positions: Map<Seq<char>, u64>,
    kind: ChangeKind,
    path: Seq<char>,
    new_len: u64,
)
    requires
        positions.contains_key(path),
    ensures
        step_positions(positions, kind, path, new_len).contains_key(path),
        step_positions(positions, kind, path, new_len)[path] >= positions[path],
        kind == ChangeKind::Modified && new_len > positions[path] ==> step_positions(
            positions,
            kind,
            path,
            new_len,
        )[path] == new_len,
        forall|q: Seq<char>|
            q != path ==> step_positions(positions, kind, path, new_len).contains_key(q)
                == positions.contains_key(q),
        forall|q: Seq<char>|
            q != path && positions.contains_key(q) ==> step_positions(
                positions,
                kind,
                path,
                new_len,
            )[q] == positions[q],
{
}

/// Law: over an append-only run of modification events for one file — the
/// reported lengths never decrease and start at or above the stored offset —
/// the offset ends exactly at the length the last event reported.
pub proof fn lemma_offset_after_append_only_run(
    positions: Map<Seq<char>, u64>,
    path: Seq<char>,
    lens: Seq<u64>,
)
    requires
        positions.contains_key(path),
        lens.len() > 0,
        positions[path] <= lens[0],
        forall|i: int| 0 <= i < lens.len() - 1 ==> #[trigger] lens[i] <= lens[i + 1],
    ensures
        run_modified(positions, path, lens).contains_key(path),
        run_modified(positions, path, lens)[path] == lens.last(),
    decreases lens.len(),
{
    if lens.len() == 1 {
        assert(lens.drop_last().len() == 0);
    } else {
        let front = lens.drop_last();
        assert(front[0] == lens[0]);
        assert(forall|i: int| 0 <= i < front.len() - 1 ==> #[trigger] front[i] <= front[i + 1]);
        lemma_offset_after_append_only_run(positions, path, front);
        assert(front.last() == lens[lens.len() - 2]);
        assert(lens[lens.len() - 2] <= lens.last());
    }
}

/// Law: a planned read always begins exactly at the stored offset and ends at
/// the reported length, and only a growing file is read at all; content below
/// the stored offset is never part of a plan.
pub proof fn lemma_read_starts_at_offset(
    positions: Map<Seq<char>, u64>,
    kind: ChangeKind,
    path: Seq<char>,
    new_len: u64,
)
    ensures
        plan_for(positions, kind, path, new_len) matches ReadPlan::Read { from, to } ==> {
            &&& positions.contains_key(path)
            &&& from == positions[path]
            &&& to == new_len
            &&& from < to
        },
{
}

/// Law: seeding stores each tracked file's reported startup length under that
/// file's path, so no later read can start below it: content present before
/// the engine started is never replayed.
pub proof fn lemma_seeding_stores_lengths(
    m: Map<Seq<char>, u64>,
    base: Seq<char>,
    lens: Seq<u64>,
)
    requires
        lens.len() == 3,
    ensures
        forall|i: int|
            0 <= i < 3 ==> #[trigger] seeded_positions(m, base, lens).contains_key(
                tracked_paths_spec(base)[i],
            ),
        forall|i: int|
            0 <= i < 3 ==> #[trigger] seeded_positions(m, base, lens)[tracked_paths_spec(base)[i]]
                == lens[i],
{
    reveal_strlit("exception.log");
    reveal_strlit("debug.log");
    reveal_strlit("system.log");
    let paths = tracked_paths_spec(base);
    assert(paths[0].len() == base.len() + 13);
    assert(paths[1].len() == base.len() + 9);
    assert(paths[2].len() == base.len() + 10);
    assert(seeded_positions(m, base, lens)[paths[0]] == lens[0]);
    assert(seeded_positions(m, base, lens)[paths[1]] == lens[1]);
    assert(seeded_positions(m, base, lens)[paths[2]] == lens[2]);
}

/// Law: a batch of lines never produces more output lines than input lines:
/// each line is emitted at most once.
pub proof fn lemma_at_most_one_output_per_line(
    is_all: bool,
    issues: Seq<MageLogIssues>,
    filename: Seq<char>,
    lines: Seq<Seq<char>>,
)
    ensures
        outputs_of_lines(is_all, issues, filename, lines).len() <= lines.len(),
    decreases lines.len(),
{
    if lines.len() > 0 {
        lemma_at_most_one_output_per_line(is_all, issues, filename, lines.drop_last());
    }
}

/// Law: a modification that reports a length equal to the stored offset plans
/// no read and leaves every offset as it was.
pub proof fn lemma_noop_event(positions: Map<Seq<char>, u64>, path: Seq<char>)
    requires
        positions.contains_key(path),
    ensures
        plan_for(positions, ChangeKind::Modified, path, positions[path]) == ReadPlan::Skip,
        step_positions(positions, ChangeKind::Modified, path, positions[path]) == positions,
{
}

/// Law: a modification that reports a shrunken file plans no read and leaves
/// every offset as it was; a later event that reports growth past the stored
/// offset is still planned from that offset, beyond the shrunken length.
pub proof fn lemma_shrink_event(
    positions: Map<Seq<char>, u64>,
    path: Seq<char>,
    new_len: u64,
    later_len: u64,
)
    requires
        positions.contains_key(path),
        new_len < positions[path],
    ensures
        plan_for(positions, ChangeKind::Modified, path, new_len) == ReadPlan::Skip,
        step_positions(positions, ChangeKind::Modified, path, new_len) == positions,
        later_len > positions[path] ==> plan_for(
            step_positions(positions, ChangeKind::Modified, path, new_len),
            ChangeKind::Modified,
            path,
            later_len,
        ) == (ReadPlan::Read { from: positions[path], to: later_len }),
{
}

/// Law: outputs keep the order of the input lines: the outputs of two blocks
/// of lines in sequence are the outputs of the first block followed by the
/// outputs of the second.
pub proof fn lemma_outputs_keep_order(
    is_all: bool,
    issues: Seq<MageLogIssues>,
    filename: Seq<char>,
    a: Seq<Seq<char>>,
    b: Seq<Seq<char>>,
)
    ensures
        outputs_of_lines(is_all, issues, filename, a + b) == outputs_of_lines(
            is_all,
            issues,
            filename,
            a,
        ) + outputs_of_lines(is_all, issues, filename, b),
    decreases b.len(),
{
    if b.len() == 0 {
        assert(a + b =~= a);
        assert(outputs_of_lines(is_all, issues, filename, a) + outputs_of_lines(
            is_all,
            issues,
            filename,
            b,
        ) =~= outputs_of_lines(is_all, issues, filename, a));
    } else {
        lemma_outputs_keep_order(is_all, issues, filename, a, b.drop_last());
        let ab = a + b;
        assert(ab.drop_last() =~= a + b.drop_last());
        assert(ab.last() == b.last());
        match output_for_line(is_all, issues, filename, b.last()) {
            Some(o) => {
                assert(outputs_of_lines(is_all, issues, filename, ab) =~= outputs_of_lines(
                    is_all,
                    issues,
                    filename,
                    a,
                ) + outputs_of_lines(is_all, issues, filename, b));
            },
            None => {
                assert(outputs_of_lines(is_all, issues, filename, ab) =~= outputs_of_lines(
                    is_all,
                    issues,
                    filename,
                    a,
                ) + outputs_of_lines(is_all, issues, filename, b));
            },
        }
    }
}

/// Law: a single line's outputs are the one formatted line when it is
/// emitted, and nothing otherwise.
pub proof fn lemma_outputs_single(
    is_all: bool,
    issues: Seq<MageLogIssues>,
    filename: Seq<char>,
    l: Seq<char>,
)
    ensures
        outputs_of_lines(is_all, issues, filename, seq![l]) == (match output_for_line(
            is_all,
            issues,
            filename,
            l,
        ) {
            Some(o) => seq![o],
            None => Seq::<OutputLineView>::empty(),
        }),
{
    Seq::lemma_filter_map_singleton(
        l,
        |x: Seq<char>| output_for_line(is_all, issues, filename, x),
    );
}

} // verus!
