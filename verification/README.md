# horae

Time-integration policy with machine-checked contracts: typed simulation time,
explicit and embedded Runge--Kutta stepping, a backward-Euler Newton step,
mixed absolute-relative adaptive step control, event-boundary clipping, and
compile-time subcycle ratios. The library in `src/` is verified with Verus.

## Scalars

Scalar values travel as IEEE 754 binary64 bit patterns (`u64`). The library
classifies, compares and selects them itself (`binary64`), and names every
rounding operation it needs as a `ScalarOp`; the caller's arithmetic closure
evaluates it in the scalar of its choice. Contracts therefore state exactly
which operations, on which operands and in which order, produce each result,
for any scalar; where a guarantee needs correct rounding (a rejected step is
never proposed longer, a child step is never longer than its parent), the
contract states it under `rounds_monotonically`, and uniqueness of results
under `deterministic`. A system may state its right-hand side and Jacobian
through the spec functions `rate` and `jacobian_at` of its trait (opting in
with `obeys_rate` and `obeys_jacobian`); the stepping contracts then pin each
stage derivative and each Newton iterate to them. It may likewise state when
its calls fail through `outcome` and `jacobian_outcome` (opting in with
`obeys_outcome` and `obeys_jacobian_outcome`); the contracts then say which
call a failing step stopped at and that its error is the one returned. The
laws in `integration::repeatability` state that an explicit step is a
function of its inputs, and that an embedded step's primary result is the
plain step's output.

## Layout

- `src/binary64.rs` — encodings, IEEE comparison, `ScalarOp`.
- `src/time/` — finite `Instant`, positive `StepSize`.
- `src/events/` — sorted `EventSchedule`, `next_after`, `clip_step`.
- `src/adaptive/` — `AdaptiveController::assess` and its report.
- `src/integration/` — tableaus (with exact order-condition proofs),
  workspaces, `step_into`, `step_embedded_into`, `step_implicit_into` and
  its pivoted dense Newton solve.
- `src/subcycling/` — `SubcyclePlan`.
- `src/system/` — the `ExplicitSystem` and `ImplicitSystem` seams.
- `app/` — unverified adapters: the `eunomia` scalar arithmetic, `aequitas`
  time quantities, `Display` for errors, and a worked example.
