//! What holds of all calls of capabilities.
use crate::cap_calls::{StepView, call_step, effect_denied, first_denied, permitted_step};
use crate::cap_value::Cap;
use crate::capabilities::entry_named;
use crate::capability_list::listing;
use crate::context::{ExecutionContext, ExecutionPolicy};
use vstd::prelude::*;

verus! {

/// A capability that a call can name.
pub open spec fn known(name: Seq<char>) -> bool {
    ||| name == "runtime.capabilities"@
    ||| name == "runtime.input"@
    ||| name == "runtime.inputGet"@
    ||| name == "runtime.publish"@
    ||| name == "file.exists"@
    ||| name == "file.readText"@
    ||| name == "file.writeText"@
    ||| name == "http.get"@
    ||| name == "http.post"@
    ||| name == "json.get"@
    ||| name == "json.has"@
    ||| name == "json.len"@
    ||| name == "sql.sqliteQuery"@
    ||| name == "stats.mean"@
    ||| name == "stats.stdDev"@
    ||| name == "stats.min"@
    ||| name == "stats.max"@
    ||| name == "stats.percentile"@
    ||| name == "series.ewmaForecast"@
    ||| name == "ops.autoScaleRecommend"@
    ||| name == "nav.norm3"@
    ||| name == "nav.distance3"@
    ||| name == "nav.dot3"@
    ||| name == "nav.radialVelocity"@
    ||| name == "nav.ephemerisState"@
    ||| name == "nav.horizonsVectors"@
    ||| name == "astro.lambertSolve"@
}

/// A name that no capability has is answered by an error that says so.
pub proof fn unknown_names_are_refused(
    name: Seq<char>,
    args: Seq<Cap>,
    ctx: Option<ExecutionContext>,
)
    requires
        !known(name),
    ensures
        permitted_step(name, args, ctx) == Err::<StepView, Seq<char>>(
            "unknown capability '"@ + name + "'"@,
        ),
{
}

/// Every capability of the catalogue can be called.
pub proof fn catalogue_is_known(i: int)
    requires
        0 <= i < listing().len(),
    ensures
        known(listing()[i].name),
{
}

/// The list of effects holds an effect that the policy denies.
proof fn denied_is_found(effects: Seq<Seq<char>>, policy: ExecutionPolicy, i: int)
    requires
        0 <= i < effects.len(),
        effect_denied(effects[i], policy),
    ensures
        first_denied(effects, policy) is Some,
    decreases effects.len(),
{
    if !effect_denied(effects[0], policy) {
        assert(effects.drop_first()[i - 1] == effects[i]);
        denied_is_found(effects.drop_first(), policy, i - 1);
    }
}

proof fn denied_is_first(effects: Seq<Seq<char>>, policy: ExecutionPolicy) -> (i: int)
    requires
        first_denied(effects, policy) is Some,
    ensures
        0 <= i < effects.len(),
        first_denied(effects, policy) == Some(effects[i]),
        effect_denied(effects[i], policy),
        forall|j: int| 0 <= j < i ==> !#[trigger] effect_denied(effects[j], policy),
    decreases effects.len(),
{
    if effect_denied(effects[0], policy) {
        0
    } else {
        let rest = effects.drop_first();
        let k = denied_is_first(rest, policy);
        assert forall|j: int| 0 <= j < k + 1 implies !#[trigger] effect_denied(
            effects[j],
            policy,
        ) by {
            if j > 0 {
                assert(rest[j - 1] == effects[j]);
                assert(!effect_denied(rest[j - 1], policy));
            }
        }
        k + 1
    }
}

/// A call is refused, whatever its arguments, where the catalogue gives the
/// capability an effect that the policy denies; the refusal names the first such
/// effect.
pub proof fn denied_effects_are_refused(
    name: Seq<char>,
    args: Seq<Cap>,
    ctx: ExecutionContext,
    effect: Seq<char>,
)
    requires
        ctx.policy is Some,
        entry_named(listing(), name) is Some,
        entry_named(listing(), name)->Some_0.effects.contains(effect),
        effect_denied(effect, ctx.policy->Some_0),
    ensures
        ({
            let effects = entry_named(listing(), name)->Some_0.effects;
            exists|i: int|
                0 <= i < effects.len() && #[trigger] effect_denied(effects[i], ctx.policy->Some_0)
                    && (forall|j: int|
                    0 <= j < i ==> !#[trigger] effect_denied(effects[j], ctx.policy->Some_0))
                    && call_step(name, args, Some(ctx)) == Err::<StepView, Seq<char>>(
                    "capability="@ + name + " effect="@ + effects[i] + " denied by policy"@,
                )
        }),
{
    let effects = entry_named(listing(), name)->Some_0.effects;
    let i = choose|i: int| 0 <= i < effects.len() && effects[i] == effect;
    denied_is_found(effects, ctx.policy->Some_0, i);
    let k = denied_is_first(effects, ctx.policy->Some_0);
    assert(effect_denied(effects[k], ctx.policy->Some_0));
}

/// A capability without effects is called alike under every policy.
pub proof fn pure_calls_ignore_the_policy(
    name: Seq<char>,
    args: Seq<Cap>,
    ctx: Option<ExecutionContext>,
)
    requires
        entry_named(listing(), name) is Some,
        entry_named(listing(), name)->Some_0.effects.len() == 0,
    ensures
        call_step(name, args, ctx) == permitted_step(name, args, ctx),
{
}

/// `json.has` tells whether `json.get` finds something.
pub proof fn has_tells_whether_get_finds(args: Seq<Cap>, ctx: Option<ExecutionContext>)
    ensures
        permitted_step("json.has"@, args, ctx) == Ok::<StepView, Seq<char>>(
            StepView::Done(Cap::Bool(true)),
        ) ==> permitted_step("json.get"@, args, ctx) is Ok,
        permitted_step("json.has"@, args, ctx) == Ok::<StepView, Seq<char>>(
            StepView::Done(Cap::Bool(false)),
        ) ==> permitted_step("json.get"@, args, ctx) is Err,
        permitted_step("json.has"@, args, ctx) is Err ==> permitted_step("json.get"@, args, ctx)
            is Err,
{
    reveal_strlit("runtime.capabilities");
    reveal_strlit("runtime.input");
    reveal_strlit("runtime.inputGet");
    reveal_strlit("runtime.publish");
    reveal_strlit("file.exists");
    reveal_strlit("file.readText");
    reveal_strlit("file.writeText");
    reveal_strlit("http.get");
    reveal_strlit("http.post");
    reveal_strlit("json.get");
    reveal_strlit("json.has");
    assert("runtime.capabilities"@.len() == 20);
    assert("runtime.input"@.len() == 13);
    assert("runtime.inputGet"@.len() == 16);
    assert("runtime.publish"@.len() == 15);
    assert("file.exists"@.len() == 11);
    assert("file.readText"@.len() == 13);
    assert("file.writeText"@.len() == 14);
    assert("http.get"@.len() == 8);
    assert("http.post"@.len() == 9);
    assert("json.get"@.len() == 8);
    assert("json.has"@.len() == 8);
    assert("http.get"@[0] != "json.get"@[0]);
    assert("http.get"@[0] != "json.has"@[0]);
    assert("json.get"@[5] != "json.has"@[5]);
}

} // verus!
