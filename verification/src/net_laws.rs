//! Which requests calls make, and what is taken of their answers.

use crate::cap_args::is_whole;
use crate::cap_calls::{NetWorkView, StepView, body_char, horizons_result, horizons_step, http_step, is_body_name, reads_only, work_on_net};
use crate::cap_value::Cap;
use crate::context::ExecutionContext;
use crate::json::Js;
use crate::number::Real;
use crate::parse::{trim_front, white};
use crate::sandbox::gate_for;
use crate::strings::{begins, lower, lower_char};
use vstd::prelude::*;
use vstd::utf8::encode_utf8;

verus! {

proof fn requests_are_told_apart()
    ensures
        "http.get"@.len() == 8,
        "http.post"@.len() == 9,
        "nav.horizonsVectors"@.len() == 19,
{
    reveal_strlit("http.get");
    reveal_strlit("http.post");
    reveal_strlit("nav.horizonsVectors");
}

/// A request to read goes to the address that is given; one to send takes the body
/// and its kind along, up to a mebibyte. What is no address of the web is refused.
pub proof fn requests_go_where_they_say(url: Seq<char>, body: Seq<char>, kind: Seq<char>)
    ensures
        ({
            let web = begins(url, "http://"@) || begins(url, "https://"@);
            let one = seq![Cap::Str(url)];
            let three = seq![Cap::Str(url), Cap::Str(body), Cap::Str(kind)];
            &&& web ==> work_on_net("http.get"@, one) == Ok::<NetWorkView, Seq<char>>(
                NetWorkView::Get(url),
            )
            &&& !web ==> work_on_net("http.get"@, one) is Err && work_on_net(
                "http.post"@,
                three,
            ) is Err
            &&& web && encode_utf8(body).len() <= 1048576 ==> work_on_net("http.post"@, three)
                == Ok::<NetWorkView, Seq<char>>(NetWorkView::Post(url, body, kind))
            &&& encode_utf8(body).len() > 1048576 ==> work_on_net("http.post"@, three) is Err
        }),
{
    requests_are_told_apart();
}

/// A request for vectors names the body, the start, the stop and the step, in their
/// order.
pub proof fn vectors_are_requested(
    body: Seq<char>,
    from: Seq<char>,
    to: Seq<char>,
    days: Real,
)
    requires
        days.spec_is_finite(),
    ensures
        ({
            let w = work_on_net(
                "nav.horizonsVectors"@,
                seq![Cap::Str(body), Cap::Str(from), Cap::Str(to), Cap::Float(days)],
            );
            &&& w is Ok && w->Ok_0 is Horizons
            &&& w->Ok_0->Horizons_0 == body && w->Ok_0->Horizons_1 == from
            &&& w->Ok_0->Horizons_2 == to && w->Ok_0->Horizons_3 == days
            &&& w->Ok_0->Horizons_4 is Some <==> is_whole(days)
        }),
{
    requests_are_told_apart();
}

/// A call to the web is let through where it has its arguments, the first of them an
/// address that the policy lets through; and nowhere else.
pub proof fn web_calls_pass_the_gate(
    args: Seq<Cap>,
    ctx: Option<ExecutionContext>,
    name: Seq<char>,
    count: int,
    url: Seq<char>,
)
    requires
        args.len() > 0,
        args[0] == Cap::Str(url),
    ensures
        ({
            let web = begins(url, "http://"@) || begins(url, "https://"@);
            &&& http_step(args, ctx, name, count) is Ok <==> args.len() == count && web && gate_for(
                ctx,
                url,
                name,
            ) is Ok
            &&& http_step(args, ctx, name, count) is Ok ==> http_step(args, ctx, name, count)->Ok_0
                == StepView::Net(gate_for(ctx, url, name)->Ok_0)
        }),
{
}

/// Vectors are asked for with a step of more than nothing and no more than a year,
/// and a body that is named by letters, digits, hyphens and underscores.
pub proof fn vector_calls_are_checked(
    body: Seq<char>,
    from: Seq<char>,
    to: Seq<char>,
    days: Real,
    ctx: Option<ExecutionContext>,
    name: Seq<char>,
)
    requires
        days.spec_is_finite(),
    ensures
        horizons_step(
            seq![Cap::Str(body), Cap::Str(from), Cap::Str(to), Cap::Float(days)],
            ctx,
            name,
        ) is Ok <==> {
            &&& (Real { bits: 0 }).below(days)
            &&& days.at_most(Real { bits: 0x4076_D000_0000_0000 })
            &&& forall|i: int|
                0 <= i < body.len() ==> ('a' <= #[trigger] body[i] && body[i] <= 'z') || ('A'
                    <= body[i] && body[i] <= 'Z') || ('0' <= body[i] && body[i] <= '9') || body[i]
                    == '-' || body[i] == '_'
            &&& gate_for(ctx, "https://ssd.jpl.nasa.gov/api/horizons.api"@, name) is Ok
        },
{
    let args = seq![Cap::Str(body), Cap::Str(from), Cap::Str(to), Cap::Float(days)];
    assert(args.len() == 4);
    if is_body_name(body) {
        assert forall|i: int| 0 <= i < body.len() implies ('a' <= #[trigger] body[i] && body[i]
            <= 'z') || ('A' <= body[i] && body[i] <= 'Z') || ('0' <= body[i] && body[i] <= '9')
            || body[i] == '-' || body[i] == '_' by {
            assert(body_char(body[i]));
        }
    }
}

/// A statement that begins otherwise than with the words for reading does not only
/// read, whatever stands in front of it in white space.
pub proof fn other_statements_do_not_only_read(s: Seq<char>)
    requires
        s.len() > 0,
        !white(s[0]),
        lower_char(s[0]) != 's' && lower_char(s[0]) != 'w' && lower_char(s[0]) != 'p',
    ensures
        !reads_only(s),
        !reads_only(seq![' '] + s),
{
    reveal_strlit("select");
    reveal_strlit("with");
    reveal_strlit("pragma");
    let l = lower(s);
    assert(l[0] == lower_char(s[0]));
    assert(trim_front(s) == s);
    let t = seq![' '] + s;
    assert(t.drop_first() =~= s);
    assert(trim_front(t) == trim_front(s));
    if begins(l, "select"@) {
        assert(l.take(6)[0] == l[0]);
    }
    if begins(l, "with"@) {
        assert(l.take(4)[0] == l[0]);
    }
    if begins(l, "pragma"@) {
        assert(l.take(6)[0] == l[0]);
    }
}

/// An answer that tells of an error is a failure with it; else its result is taken,
/// and an answer without one is a failure.
pub proof fn answers_tell_of_errors(root: Js, capability: Seq<char>, t: Seq<char>)
    ensures
        root.str_at("error"@) is Some ==> horizons_result(root, capability) is Err,
        root.str_at("error"@) is None && root.str_at("result"@) == Some(t) ==> horizons_result(
            root,
            capability,
        ) == Ok::<Seq<char>, Seq<char>>(t),
        root.str_at("error"@) is None && root.str_at("result"@) is None ==> horizons_result(
            root,
            capability,
        ) is Err,
{
}

} // verus!
