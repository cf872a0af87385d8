use vstd::prelude::*;

verus! {

/// One step of the pass scan. `visible` holds the remaining visibility
/// samples, taken `step` milliseconds apart starting at time `t`; `current`
/// is the start time of the pass in progress, if any. A pass that begins at
/// sample time `s` closes at the last still-visible sample's time when
/// visibility ends, and at the window end `end` when it is still open after
/// the final sample.
pub open spec fn scan_passes(
    visible: Seq<bool>,
    t: int,
    step: int,
    end: int,
    current: Option<int>,
) -> Seq<(int, int)>
    decreases visible.len(),
{
    if visible.len() == 0 {
        match current {
            Option::Some(s) => seq![(s, end)],
            Option::None => Seq::empty(),
        }
    } else {
        match current {
            Option::None => if visible[0] {
                scan_passes(visible.drop_first(), t + step, step, end, Option::Some(t))
            } else {
                scan_passes(visible.drop_first(), t + step, step, end, Option::None)
            },
            Option::Some(s) => if visible[0] {
                scan_passes(visible.drop_first(), t + step, step, end, Option::Some(s))
            } else {
                seq![(s, t - step)] + scan_passes(
                    visible.drop_first(),
                    t + step,
                    step,
                    end,
                    Option::None,
                )
            },
        }
    }
}

/// The pass segments of a whole visibility scan over the window
/// `[start, end]`, sample `k` standing for time `start + k * step`.
pub open spec fn pass_segments(visible: Seq<bool>, start: int, step: int, end: int) -> Seq<
    (int, int),
> {
    scan_passes(visible, start, step, end, Option::None)
}

/// The mathematical value of a segment list.
pub open spec fn seg_views(segments: Seq<(i64, i64)>) -> Seq<(int, int)> {
    segments.map_values(|p: (i64, i64)| (p.0 as int, p.1 as int))
}

/// The mathematical value of the running pass start.
pub open spec fn opt_ms(current: Option<i64>) -> Option<int> {
    match current {
        Option::Some(s) => Option::Some(s as int),
        Option::None => Option::None,
    }
}

/// Splits a visibility scan into pass segments. `visible[k]` says whether
/// the object is at or above the horizon at time `start_time_ms + k *
/// step_ms`; the samples all lie within the window, which closes at
/// `end_time_ms`. Each returned pair is a closed interval: a pass opens at
/// its first visible sample and closes at its last visible sample, or at
/// the window end when it is still open there.
pub fn calculate_pass_times(
    visible: &Vec<bool>,
    start_time_ms: i64,
    step_ms: i64,
    end_time_ms: i64,
) -> (segments: Vec<(i64, i64)>)
    requires
        step_ms > 0,
        start_time_ms <= end_time_ms,
        start_time_ms + visible@.len() * step_ms <= i64::MAX,
        visible@.len() > 0 ==> start_time_ms + (visible@.len() - 1) * step_ms <= end_time_ms,
    ensures
        seg_views(segments@) == pass_segments(
            visible@,
            start_time_ms as int,
            step_ms as int,
            end_time_ms as int,
        ),
{
    let n = visible.len();
    let mut segments: Vec<(i64, i64)> = Vec::new();
    let mut current: Option<i64> = None;
    let mut t: i64 = start_time_ms;
    let mut k: usize = 0;
    proof {
        assert(visible@.skip(0) =~= visible@);
        assert(seg_views(segments@) =~= Seq::<(int, int)>::empty());
        assert(Seq::<(int, int)>::empty() + scan_passes(
            visible@,
            start_time_ms as int,
            step_ms as int,
            end_time_ms as int,
            Option::None,
        ) =~= scan_passes(
            visible@,
            start_time_ms as int,
            step_ms as int,
            end_time_ms as int,
            Option::None,
        ));
    }
    while k < n
        invariant
            n == visible@.len(),
            0 <= k <= n,
            step_ms > 0,
            start_time_ms <= end_time_ms,
            start_time_ms + n * step_ms <= i64::MAX,
            t == start_time_ms + k * step_ms,
            current matches Some(s) ==> (start_time_ms <= s && k >= 1),
            pass_segments(
                visible@,
                start_time_ms as int,
                step_ms as int,
                end_time_ms as int,
            ) == seg_views(segments@) + scan_passes(
                visible@.skip(k as int),
                t as int,
                step_ms as int,
                end_time_ms as int,
                opt_ms(current),
            ),
        decreases n - k,
    {
        let ghost rest = visible@.skip(k as int);
        let ghost segs_before = segments@;
        let ghost cur_before = current;
        proof {
            assert(rest[0] == visible@[k as int]);
            assert(rest.drop_first() =~= visible@.skip(k as int + 1));
            assert((k + 1) * step_ms <= n * step_ms) by (nonlinear_arith)
                requires
                    k + 1 <= n,
                    step_ms > 0,
            ;
        }
        let v = visible[k];
        if v {
            if current.is_none() {
                current = Some(t);
            }
        } else {
            match current {
                Some(s) => {
                    proof {
                        assert((k - 1) * step_ms >= 0) by (nonlinear_arith)
                            requires
                                k >= 1,
                                step_ms > 0,
                        ;
                        assert(k * step_ms - step_ms == (k - 1) * step_ms) by (nonlinear_arith);
                    }
                    segments.push((s, t - step_ms));
                    current = None;
                    proof {
                        assert(seg_views(segments@) =~= seg_views(segs_before).push(
                            (s as int, t - step_ms),
                        ));
                        assert(seg_views(segs_before) + (seq![(s as int, t - step_ms as int)]
                            + scan_passes(
                            rest.drop_first(),
                            t + step_ms,
                            step_ms as int,
                            end_time_ms as int,
                            Option::None,
                        )) =~= seg_views(segments@) + scan_passes(
                            rest.drop_first(),
                            t + step_ms,
                            step_ms as int,
                            end_time_ms as int,
                            Option::None,
                        ));
                    }
                },
                None => (),
            }
        }
        proof {
            assert((k + 1) * step_ms == k * step_ms + step_ms) by (nonlinear_arith);
        }
        t = t + step_ms;
        k = k + 1;
    }
    proof {
        assert(visible@.skip(n as int) =~= Seq::<bool>::empty());
    }
    let ghost segs_before = segments@;
    match current {
        Some(s) => {
            segments.push((s, end_time_ms));
            proof {
                assert(seg_views(segments@) =~= seg_views(segs_before).push(
                    (s as int, end_time_ms as int),
                ));
                assert(seg_views(segs_before) + seq![(s as int, end_time_ms as int)] =~= seg_views(
                    segments@,
                ));
            }
        },
        None => {
            proof {
                assert(seg_views(segments@) + Seq::<(int, int)>::empty() =~= seg_views(segments@));
            }
        },
    }
    segments
}

/// No sample visible, no pass in progress: the scan yields nothing.
proof fn lemma_scan_all_false(visible: Seq<bool>, t: int, step: int, end: int)
    requires
        forall|k: int| 0 <= k < visible.len() ==> !visible[k],
    ensures
        scan_passes(visible, t, step, end, Option::None) =~= Seq::<(int, int)>::empty(),
    decreases visible.len(),
{
    if visible.len() > 0 {
        lemma_scan_all_false(visible.drop_first(), t + step, step, end);
    }
}

/// A pass in progress over `c` more visible samples, followed only by
/// invisible ones, closes at the last visible sample's time.
proof fn lemma_scan_run_closes(visible: Seq<bool>, t: int, step: int, end: int, s: int, c: int)
    requires
        0 <= c < visible.len(),
        forall|k: int| 0 <= k < visible.len() ==> (#[trigger] visible[k] <==> k < c),
    ensures
        scan_passes(visible, t, step, end, Option::Some(s)) =~= seq![(s, t + (c - 1) * step)],
    decreases visible.len(),
{
    if c == 0 {
        assert(!visible[0]);
        assert(t - step == t + (0 - 1) * step) by (nonlinear_arith);
        lemma_scan_all_false(visible.drop_first(), t + step, step, end);
        assert(seq![(s, t - step)] + Seq::<(int, int)>::empty() =~= seq![(s, t - step)]);
    } else {
        assert(visible[0]);
        let rest = visible.drop_first();
        assert forall|k: int| 0 <= k < rest.len() implies (#[trigger] rest[k] <==> k < c - 1) by {
            assert(rest[k] == visible[k + 1]);
        }
        lemma_scan_run_closes(rest, t + step, step, end, s, c - 1);
        assert((t + step) + (c - 2) * step == t + (c - 1) * step) by (nonlinear_arith);
    }
}

/// A pass in progress that stays visible through every remaining sample
/// closes at the window end.
proof fn lemma_scan_run_to_end(visible: Seq<bool>, t: int, step: int, end: int, s: int)
    requires
        forall|k: int| 0 <= k < visible.len() ==> visible[k],
    ensures
        scan_passes(visible, t, step, end, Option::Some(s)) =~= seq![(s, end)],
    decreases visible.len(),
{
    if visible.len() > 0 {
        lemma_scan_run_to_end(visible.drop_first(), t + step, step, end, s);
    }
}

/// When visibility holds from sample `a` through the window's final sample,
/// the scan yields exactly one segment, closed at the window's exact end
/// rather than at the last confirmed-visible sample.
pub proof fn lemma_open_run_closes_at_window_end(
    visible: Seq<bool>,
    start: int,
    step: int,
    end: int,
    a: int,
)
    requires
        0 <= a < visible.len(),
        forall|k: int| 0 <= k < visible.len() ==> (#[trigger] visible[k] <==> k >= a),
    ensures
        pass_segments(visible, start, step, end) =~= seq![(start + a * step, end)],
    decreases a,
{
    if a == 0 {
        assert(visible[0]);
        let rest = visible.drop_first();
        assert forall|k: int| 0 <= k < rest.len() implies rest[k] by {
            assert(rest[k] == visible[k + 1]);
        }
        lemma_scan_run_to_end(rest, start + step, step, end, start);
        assert(start + 0 * step == start) by (nonlinear_arith);
    } else {
        assert(!visible[0]);
        let rest = visible.drop_first();
        assert forall|k: int| 0 <= k < rest.len() implies (#[trigger] rest[k] <==> k >= a - 1) by {
            assert(rest[k] == visible[k + 1]);
        }
        lemma_open_run_closes_at_window_end(rest, start + step, step, end, a - 1);
        assert((start + step) + (a - 1) * step == start + a * step) by (nonlinear_arith);
    }
}

/// When visibility holds on exactly one contiguous run of samples, from
/// sample `a` through sample `b`, and at least one invisible sample follows
/// the run, the scan yields exactly one segment: from the run's first sample
/// time to its last.
pub proof fn lemma_single_run_single_segment(
    visible: Seq<bool>,
    start: int,
    step: int,
    end: int,
    a: int,
    b: int,
)
    requires
        0 <= a <= b,
        b + 1 < visible.len(),
        forall|k: int| 0 <= k < visible.len() ==> (#[trigger] visible[k] <==> a <= k <= b),
    ensures
        pass_segments(visible, start, step, end) =~= seq![(start + a * step, start + b * step)],
    decreases a,
{
    if a == 0 {
        assert(visible[0]);
        let rest = visible.drop_first();
        assert forall|k: int| 0 <= k < rest.len() implies (#[trigger] rest[k] <==> k < b) by {
            assert(rest[k] == visible[k + 1]);
        }
        lemma_scan_run_closes(rest, start + step, step, end, start, b);
        assert((start + step) + (b - 1) * step == start + b * step) by (nonlinear_arith);
        assert(start + 0 * step == start) by (nonlinear_arith);
    } else {
        assert(!visible[0]);
        let rest = visible.drop_first();
        assert forall|k: int| 0 <= k < rest.len() implies (#[trigger] rest[k] <==> a - 1 <= k <= b
            - 1) by {
            assert(rest[k] == visible[k + 1]);
        }
        lemma_single_run_single_segment(rest, start + step, step, end, a - 1, b - 1);
        assert((start + step) + (a - 1) * step == start + a * step) by (nonlinear_arith);
        assert((start + step) + (b - 1) * step == start + b * step) by (nonlinear_arith);
    }
}

} // verus!
