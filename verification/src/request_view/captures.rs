//! Publishing values of a response into an environment: when it happens, when it is refused, and
//! what is said about it.

use crate::input::words;
use crate::request;
use crate::request::{Capture, CaptureView};
use crate::request_view::rows;
use crate::request_view::rows::CaptureRow;
use crate::request_view::view::{CaptureTrigger, RequestView};
use crate::strings;
use vstd::prelude::*;
use vstd::string::*;

verus! {

/// Why captures do not run.
#[derive(Clone, Copy, Debug, PartialEq, Eq, Structural)]
pub enum Refusal {
    /// An earlier run shows: its values are not published again for being looked at.
    EarlierRun,
    NothingSent,
    /// A failed response has fields too, and publishing one breaks the next request instead.
    NotSuccessful,
    /// No rule is enabled with a path and a name.
    NoRule,
    /// No environment is selected. A captured value belongs to one.
    NoEnvironment,
    NoCollection,
    NotJson,
}

impl Refusal {
    /// Whether it is said even where nobody asked for captures.
    pub open spec fn spec_is_always_said(self) -> bool {
        self is NoEnvironment || self is NotJson
    }

    pub fn is_always_said(self) -> (r: bool)
        ensures
            r == self.spec_is_always_said(),
    {
        match self {
            Refusal::NoEnvironment | Refusal::NotJson => true,
            _ => false,
        }
    }

    pub open spec fn spec_text(self) -> Seq<char> {
        match self {
            Refusal::EarlierRun =>
                "Captures publish from the live response, not a retained run"@,
            Refusal::NothingSent => "Send the request first"@,
            Refusal::NotSuccessful => "Captures only publish from a successful response"@,
            Refusal::NoRule => "Give the capture a path and a variable name"@,
            Refusal::NoEnvironment => "Select an environment to capture into"@,
            Refusal::NoCollection => "No collection directory to hold environments"@,
            Refusal::NotJson => "Captures need a JSON response"@,
        }
    }

    pub fn text(self) -> (r: &'static str)
        ensures
            r@ == self.spec_text(),
    {
        match self {
            Refusal::EarlierRun => "Captures publish from the live response, not a retained run",
            Refusal::NothingSent => "Send the request first",
            Refusal::NotSuccessful => "Captures only publish from a successful response",
            Refusal::NoRule => "Give the capture a path and a variable name",
            Refusal::NoEnvironment => "Select an environment to capture into",
            Refusal::NoCollection => "No collection directory to hold environments",
            Refusal::NotJson => "Captures need a JSON response",
        }
    }
}

/// What to do about captures.
#[derive(Clone, Copy, Debug, PartialEq, Eq, Structural)]
pub enum CaptureStep {
    /// There are no rules at all, so there is nothing to say.
    Idle,
    Refused(Refusal),
    Publish,
}

/// What there is to publish, and where to.
pub struct CapturePlan {
    pub rules: Vec<Capture>,
    /// The environment.
    pub target: String,
    /// The directory that holds the environments.
    pub root: String,
}

/// What publishing did.
pub struct Published {
    pub target: String,
    /// The variables written.
    pub written: Vec<String>,
    /// The paths that matched nothing.
    pub missed: Vec<String>,
    /// Whether the file of secrets was put out of sight of git.
    pub ignored: bool,
}

/// Whether a rule can be run: it is enabled and has a path and a name.
pub open spec fn is_ready(rule: CaptureView) -> bool {
    &&& rule.enabled
    &&& !strings::is_blank(rule.path)
    &&& !strings::is_blank(rule.name)
}

/// The rules that can be run, in order.
pub open spec fn ready_rules(rules: Seq<CaptureView>) -> Seq<CaptureView>
    decreases rules.len(),
{
    if rules.len() == 0 {
        Seq::empty()
    } else if is_ready(rules.last()) {
        ready_rules(rules.drop_last()).push(rules.last())
    } else {
        ready_rules(rules.drop_last())
    }
}

/// The rules of a buffer that can be run.
pub open spec fn rules_to_run(view: RequestView) -> Seq<CaptureView> {
    ready_rules(rows::rules_of(rows::capture_rows_of(view.captures@)))
}

/// Whether the indexed body is JSON.
pub open spec fn has_outline(view: RequestView) -> bool {
    view.body_view matches Some(body) && body@.kind is Json
}

/// What to do about captures, tried in this order.
pub open spec fn capture_step(view: RequestView, has_root: bool) -> CaptureStep {
    if view.captures.len() == 0 {
        CaptureStep::Idle
    } else if view.viewing != 0 {
        CaptureStep::Refused(Refusal::EarlierRun)
    } else if view.response is None {
        CaptureStep::Refused(Refusal::NothingSent)
    } else if !(200 <= view.response->0.status < 300) {
        CaptureStep::Refused(Refusal::NotSuccessful)
    } else if rules_to_run(view).len() == 0 {
        CaptureStep::Refused(Refusal::NoRule)
    } else if view.capture_target is None {
        CaptureStep::Refused(Refusal::NoEnvironment)
    } else if !has_root {
        CaptureStep::Refused(Refusal::NoCollection)
    } else if !has_outline(view) {
        CaptureStep::Refused(Refusal::NotJson)
    } else {
        CaptureStep::Publish
    }
}

/// What publishing did, as it reads.
pub open spec fn published_text(
    target: Seq<char>,
    written: Seq<Seq<char>>,
    missed: Seq<Seq<char>>,
    ignored: bool,
) -> Seq<char> {
    if missed.len() == 0 {
        let said = "Captured "@ + strings::joined(written, ", "@) + " into "@ + target;
        if ignored {
            said + " — added *.local.json to .gitignore"@
        } else {
            said
        }
    } else {
        "No match for "@ + strings::joined(missed, ", "@)
    }
}

/// The rules that can be run, in order.
pub fn keep_ready(rules: Vec<Capture>) -> (r: Vec<Capture>)
    ensures
        request::captures_of(r@) == ready_rules(request::captures_of(rules@)),
{
    let ghost views = request::captures_of(rules@);
    let mut r: Vec<Capture> = Vec::new();
    let mut i: usize = 0;
    proof {
        assert(views.take(0) =~= Seq::<CaptureView>::empty());
        assert(request::captures_of(r@) =~= Seq::<CaptureView>::empty());
    }
    while i < rules.len()
        invariant
            i <= rules.len(),
            views == request::captures_of(rules@),
            request::captures_of(r@) == ready_rules(views.take(i as int)),
        decreases rules.len() - i,
    {
        let ghost held = r@;
        proof {
            assert(views.take(i + 1).drop_last() =~= views.take(i as int));
            assert(views.take(i + 1).last() == rules[i as int]@);
        }
        let rule = &rules[i];
        if rule.enabled && !strings::blank(rule.path.as_str()) && !strings::blank(
            rule.name.as_str(),
        ) {
            r.push(rule.clone());
            proof {
                assert(request::captures_of(r@) =~= request::captures_of(held).push(
                    rules[i as int]@,
                ));
            }
        }
        i = i + 1;
    }
    proof {
        assert(views.take(views.len() as int) =~= views);
    }
    r
}

impl RequestView {
    /// What to do about captures, given whether there is a directory to publish into.
    pub fn next_capture_step(&self, has_root: bool) -> (r: CaptureStep)
        ensures
            r == capture_step(*self, has_root),
    {
        if self.captures.len() == 0 {
            return CaptureStep::Idle;
        }
        if self.viewing != 0 {
            return CaptureStep::Refused(Refusal::EarlierRun);
        }
        let status: u16 = match &self.response {
            Some(response) => response.status,
            None => {
                return CaptureStep::Refused(Refusal::NothingSent);
            },
        };
        if status < 200 || status >= 300 {
            return CaptureStep::Refused(Refusal::NotSuccessful);
        }
        let rules = keep_ready(rows::read_captures(&self.captures));
        proof {
            assert(request::captures_of(rules@).len() == rules.len());
        }
        if rules.len() == 0 {
            return CaptureStep::Refused(Refusal::NoRule);
        }
        if self.capture_target.is_none() {
            return CaptureStep::Refused(Refusal::NoEnvironment);
        }
        if !has_root {
            return CaptureStep::Refused(Refusal::NoCollection);
        }
        let is_json = match &self.body_view {
            Some(body) => body.is_json(),
            None => false,
        };
        if !is_json {
            return CaptureStep::Refused(Refusal::NotJson);
        }
        CaptureStep::Publish
    }

    /// Publish this request's captures: returns what to publish, or says why nothing is. A
    /// refusal is reported where captures were asked for, and after a send only where it is one
    /// that the reader can do something about.
    pub fn run_captures(&mut self, trigger: CaptureTrigger, root: Option<String>) -> (plan: Option<
        CapturePlan,
    >)
        ensures
            match capture_step(*old(self), root is Some) {
                CaptureStep::Idle => plan is None && *final(self) == *old(self),
                CaptureStep::Refused(why) => {
                    &&& plan is None
                    &&& if trigger is Requested || why.spec_is_always_said() {
                        &&& *final(self) == (RequestView {
                            status: final(self).status,
                            ..*old(self)
                        })
                        &&& final(self).status matches Some(said) && said@ == why.spec_text()
                    } else {
                        *final(self) == *old(self)
                    }
                },
                CaptureStep::Publish => {
                    &&& *final(self) == *old(self)
                    &&& plan matches Some(plan) && {
                        &&& request::captures_of(plan.rules@) == rules_to_run(*old(self))
                        &&& Some(plan.target) == old(self).capture_target
                        &&& Some(plan.root) == root
                    }
                },
            },
    {
        match self.next_capture_step(root.is_some()) {
            CaptureStep::Idle => None,
            CaptureStep::Refused(why) => {
                if trigger == CaptureTrigger::Requested || why.is_always_said() {
                    self.status = Some(why.text().to_owned());
                }
                None
            },
            CaptureStep::Publish => {
                let rules = keep_ready(rows::read_captures(&self.captures));
                match (&self.capture_target, root) {
                    (Some(target), Some(root)) => Some(
                        CapturePlan { rules, target: target.clone(), root },
                    ),
                    _ => None,
                }
            },
        }
    }

    /// Publish now, from the response on screen, into the environment that is selected now rather
    /// than the one the request was sent with.
    pub fn publish_captures(&mut self, environment: Option<String>, root: Option<String>) -> (plan:
        Option<CapturePlan>)
        ensures
            ({
                let asked = RequestView { capture_target: environment, ..*old(self) };
                match capture_step(asked, root is Some) {
                    CaptureStep::Idle => plan is None && *final(self) == asked,
                    CaptureStep::Refused(why) => {
                        &&& plan is None
                        &&& *final(self) == (RequestView { status: final(self).status, ..asked })
                        &&& final(self).status matches Some(said) && said@ == why.spec_text()
                    },
                    CaptureStep::Publish => {
                        &&& *final(self) == asked
                        &&& plan matches Some(plan) && {
                            &&& request::captures_of(plan.rules@) == rules_to_run(asked)
                            &&& Some(plan.target) == environment
                            &&& Some(plan.root) == root
                        }
                    },
                }
            }),
    {
        self.capture_target = environment;
        self.run_captures(CaptureTrigger::Requested, root)
    }

    /// Say what publishing did. Paths that matched nothing are named.
    pub fn captured(&mut self, outcome: Result<Published, String>)
        ensures
            *final(self) == (RequestView { status: final(self).status, ..*old(self) }),
            final(self).status matches Some(said) && said@ == (match outcome {
                Err(error) => error@,
                Ok(done) => published_text(
                    done.target@,
                    strings::texts(done.written@),
                    strings::texts(done.missed@),
                    done.ignored,
                ),
            }),
    {
        let said = match outcome {
            Err(error) => error,
            Ok(done) => {
                proof {
                    assert(strings::texts(done.missed@).len() == done.missed.len());
                }
                if done.missed.len() == 0 {
                    let mut said = "Captured ".to_owned();
                    said.append(strings::join(&done.written, ", ").as_str());
                    said.append(" into ");
                    said.append(done.target.as_str());
                    if done.ignored {
                        said.append(" — added *.local.json to .gitignore");
                    }
                    said
                } else {
                    let mut said = "No match for ".to_owned();
                    said.append(strings::join(&done.missed, ", ").as_str());
                    said
                }
            },
        };
        self.status = Some(said);
    }
}

/// Nothing is ever published from a failed response, from an earlier run, or into no environment.
pub proof fn captures_are_published_from_a_live_success(view: RequestView, has_root: bool)
    requires
        capture_step(view, has_root) is Publish,
    ensures
        view.viewing == 0,
        view.shown() matches Some(response) && 200 <= response.status < 300,
        view.capture_target is Some,
        has_root,
        forall|i: int|
            0 <= i < rules_to_run(view).len() ==> is_ready(#[trigger] rules_to_run(view)[i]),
{
    lemma_ready(rows::rules_of(rows::capture_rows_of(view.captures@)));
}

proof fn lemma_ready(rules: Seq<CaptureView>)
    ensures
        forall|i: int|
            0 <= i < ready_rules(rules).len() ==> is_ready(#[trigger] ready_rules(rules)[i]),
    decreases rules.len(),
{
    if rules.len() > 0 {
        let rest = ready_rules(rules.drop_last());
        lemma_ready(rules.drop_last());
        assert forall|i: int| 0 <= i < ready_rules(rules).len() implies is_ready(
            #[trigger] ready_rules(rules)[i],
        ) by {
            if i < rest.len() {
                assert(ready_rules(rules)[i] == rest[i]);
            }
        }
    }
}

/// Once captures are asked for, every refusal is said.
pub proof fn a_requested_capture_is_never_refused_in_silence(view: RequestView, has_root: bool)
    requires
        view.captures.len() > 0,
    ensures
        capture_step(view, has_root) !is Idle,
{
}

/// What is published is what the rows say, in their order and each as often as it is there: every
/// row that is enabled and has something in both of its boxes, and no other.
pub proof fn every_ready_row_is_published(view: RequestView)
    ensures
        rules_to_run(view) == view.captures@.map_values(
            |row: CaptureRow|
                CaptureView {
                    enabled: row.enabled,
                    path: row.path@.surface.text,
                    name: row.name@.surface.text,
                    secret: row.secret,
                },
        ).filter(
            |rule: CaptureView|
                rule.enabled && (exists|k: int|
                    0 <= k < rule.path.len() && !words::is_whitespace_char(#[trigger] rule.path[k]))
                    && (exists|k: int|
                    0 <= k < rule.name.len() && !words::is_whitespace_char(
                        #[trigger] rule.name[k],
                    )),
        ),
{
    let stated = view.captures@.map_values(
        |row: CaptureRow|
            CaptureView {
                enabled: row.enabled,
                path: row.path@.surface.text,
                name: row.name@.surface.text,
                secret: row.secret,
            },
    );
    let rules = rows::rules_of(rows::capture_rows_of(view.captures@));
    assert(rules =~= stated);
    lemma_ready_is_a_filter(rules);
}

proof fn lemma_ready_is_a_filter(rules: Seq<CaptureView>)
    ensures
        ready_rules(rules) == rules.filter(
            |rule: CaptureView|
                rule.enabled && (exists|k: int|
                    0 <= k < rule.path.len() && !words::is_whitespace_char(#[trigger] rule.path[k]))
                    && (exists|k: int|
                    0 <= k < rule.name.len() && !words::is_whitespace_char(
                        #[trigger] rule.name[k],
                    )),
        ),
    decreases rules.len(),
{
    reveal(Seq::filter);
    if rules.len() > 0 {
        lemma_ready_is_a_filter(rules.drop_last());
        strings::a_blank_text_is_all_whitespace(rules.last().path);
        strings::a_blank_text_is_all_whitespace(rules.last().name);
    }
}

/// Captures are published exactly where everything that publishing needs is there: a live response
/// that succeeded and is JSON, an environment, a collection, and a row that can be run.
pub proof fn captures_are_published_wherever_they_can_be(view: RequestView, has_root: bool)
    ensures
        capture_step(view, has_root) is Publish <==> {
            &&& view.viewing == 0
            &&& view.response matches Some(response) && 200 <= response.status <= 299
            &&& view.capture_target is Some
            &&& has_root
            &&& view.body_view matches Some(body) && body@.kind is Json
            &&& exists|i: int|
                0 <= i < view.captures.len() && (#[trigger] view.captures[i]).enabled
                    && !strings::is_blank(view.captures[i].path@.surface.text)
                    && !strings::is_blank(view.captures[i].name@.surface.text)
        },
{
    let rules = rows::rules_of(rows::capture_rows_of(view.captures@));
    lemma_some_rule(rules);
    if exists|i: int|
        0 <= i < view.captures.len() && (#[trigger] view.captures[i]).enabled && !strings::is_blank(
            view.captures[i].path@.surface.text,
        ) && !strings::is_blank(view.captures[i].name@.surface.text) {
        let i = choose|i: int|
            0 <= i < view.captures.len() && (#[trigger] view.captures[i]).enabled
                && !strings::is_blank(view.captures[i].path@.surface.text) && !strings::is_blank(
                view.captures[i].name@.surface.text,
            );
        assert(is_ready(rules[i]));
    }
    if exists|i: int| 0 <= i < rules.len() && is_ready(#[trigger] rules[i]) {
        let i = choose|i: int| 0 <= i < rules.len() && is_ready(#[trigger] rules[i]);
        assert(view.captures[i].enabled);
    }
}

proof fn lemma_some_rule(rules: Seq<CaptureView>)
    ensures
        ready_rules(rules).len() > 0 <==> exists|i: int|
            0 <= i < rules.len() && is_ready(#[trigger] rules[i]),
    decreases rules.len(),
{
    if rules.len() > 0 {
        let front = rules.drop_last();
        lemma_some_rule(front);
        if is_ready(rules.last()) {
            assert(rules[rules.len() - 1] == rules.last());
        }
        if exists|i: int| 0 <= i < front.len() && is_ready(#[trigger] front[i]) {
            let i = choose|i: int| 0 <= i < front.len() && is_ready(#[trigger] front[i]);
            assert(is_ready(rules[i]));
        }
        if exists|i: int| 0 <= i < rules.len() && is_ready(#[trigger] rules[i]) {
            let i = choose|i: int| 0 <= i < rules.len() && is_ready(#[trigger] rules[i]);
            if i < front.len() {
                assert(is_ready(front[i]));
            }
        }
    }
}

/// The reason given for publishing nothing is one that holds, and none is given where there is
/// nothing to publish at all.
pub proof fn a_refusal_gives_a_reason_that_holds(view: RequestView, has_root: bool)
    ensures
        capture_step(view, has_root) is Idle <==> view.captures.len() == 0,
        capture_step(view, has_root) matches CaptureStep::Refused(why) ==> match why {
            Refusal::EarlierRun => view.viewing != 0,
            Refusal::NothingSent => view.response is None,
            Refusal::NotSuccessful => view.response matches Some(response) && (response.status < 200
                || response.status > 299),
            Refusal::NoRule => forall|i: int|
                0 <= i < view.captures.len() ==> !(#[trigger] view.captures[i]).enabled
                    || strings::is_blank(view.captures[i].path@.surface.text) || strings::is_blank(
                    view.captures[i].name@.surface.text,
                ),
            Refusal::NoEnvironment => view.capture_target is None,
            Refusal::NoCollection => !has_root,
            Refusal::NotJson => !(view.body_view matches Some(body) && body@.kind is Json),
        },
{
    let rules = rows::rules_of(rows::capture_rows_of(view.captures@));
    lemma_some_rule(rules);
    assert forall|i: int| 0 <= i < view.captures.len() implies rules[i].enabled
        == (#[trigger] view.captures[i]).enabled && rules[i].path
        == view.captures[i].path@.surface.text && rules[i].name
        == view.captures[i].name@.surface.text by {}
}

/// What is said of a publication names what was missed where anything was, and else what was
/// written and where to; only in the second case, and only where it happened, does it tell of the
/// file that keeps secrets out of the repository.
pub proof fn a_publication_is_told_by_what_it_missed(
    target: Seq<char>,
    written: Seq<Seq<char>>,
    missed: Seq<Seq<char>>,
    ignored: bool,
)
    ensures
        missed.len() > 0 ==> published_text(target, written, missed, ignored) == "No match for "@
            + strings::joined(missed, ", "@),
        missed.len() == 0 && !ignored ==> published_text(target, written, missed, ignored)
            == "Captured "@ + strings::joined(written, ", "@) + " into "@ + target,
        missed.len() == 0 && ignored ==> published_text(target, written, missed, ignored)
            == published_text(target, written, missed, false)
            + " — added *.local.json to .gitignore"@,
        missed.len() > 0 ==> published_text(target, written, missed, ignored) == published_text(
            target,
            written,
            missed,
            false,
        ),
{
}

/// A refusal is told unasked only where captures were due and could not be taken: no environment
/// is chosen, or the response is not JSON. What stands in the way of their being due is told only
/// to those who asked.
pub proof fn a_refusal_is_told_unasked_where_captures_were_due(
    view: RequestView,
    has_root: bool,
    why: Refusal,
)
    requires
        capture_step(view, has_root) == CaptureStep::Refused(why),
    ensures
        why.spec_is_always_said() ==> view.viewing == 0 && view.response is Some && 200
            <= view.response->0.status < 300 && rules_to_run(view).len() > 0 && (
        view.capture_target is None || !(view.body_view is Some && view.body_view->0@.kind is Json)),
        !why.spec_is_always_said() ==> view.viewing != 0 || view.response is None || !(200
            <= view.response->0.status < 300) || rules_to_run(view).len() == 0 || !has_root,
{
}

} // verus!
