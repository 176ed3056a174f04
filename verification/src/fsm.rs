//! The PPP negotiation state machine (RFC 1661 style), used for LCP and IPCP.
//!
//! Pure: an event goes in, the new state and a list of actions come out; the
//! caller sends the frames and acts on `LayerUp` and `Shutdown`.
use vstd::prelude::*;
use vstd::slice::slice_to_vec;
use crate::constants::{PPP_CODE_REJECT, PPP_CONFIG_ACK, PPP_CONFIG_NAK, PPP_CONFIG_REJECT, PPP_CONFIG_REQ, PPP_RESTART_LIMIT, PPP_TERMINATE_ACK, PPP_TERMINATE_REQ};
use crate::error::ProtoError;
use crate::ppp_control::{copy_option, lemma_parse_options_roundtrip, option_views, options_bytes, parse_options, parse_options_spec, untried, FrameView, OptionView, PppControlFrame, PppControlOption};

verus! {

/// FSM states.
#[derive(Debug, Clone, Copy, PartialEq, Eq, Structural)]
pub enum FsmState {
    Initial,
    Closed,
    ReqSent,
    AckRecvd,
    AckSent,
    Opened,
    Closing,
    Stopped,
}

/// Events that drive the FSM.
#[derive(Debug, Clone, PartialEq, Eq)]
pub enum FsmEvent {
    Up,
    Open,
    Close,
    Timeout,
    /// A PPP control frame received from the peer.
    ReceiveFrame(PppControlFrame),
}

/// Actions the FSM asks the tunnel engine to perform.
#[derive(Debug, Clone, PartialEq, Eq)]
pub enum FsmAction {
    /// Send a PPP control frame on the wire.
    SendFrame(PppControlFrame),
    /// The layer is up (LCP opened: start authentication; IPCP opened: tunnel ready).
    LayerUp,
    /// Shut down the tunnel: unrecoverable error or retries exhausted.
    Shutdown,
}

/// An event as a value.
pub enum EventView {
    Up,
    Open,
    Close,
    Timeout,
    Receive(FrameView),
}

/// An action as a value.
pub enum ActionView {
    Send(FrameView),
    LayerUp,
    Shutdown,
}

impl View for FsmEvent {
    type V = EventView;

    open spec fn view(&self) -> EventView {
        match self {
            FsmEvent::Up => EventView::Up,
            FsmEvent::Open => EventView::Open,
            FsmEvent::Close => EventView::Close,
            FsmEvent::Timeout => EventView::Timeout,
            FsmEvent::ReceiveFrame(f) => EventView::Receive(f@),
        }
    }
}

impl View for FsmAction {
    type V = ActionView;

    open spec fn view(&self) -> ActionView {
        match self {
            FsmAction::SendFrame(f) => ActionView::Send(f@),
            FsmAction::LayerUp => ActionView::LayerUp,
            FsmAction::Shutdown => ActionView::Shutdown,
        }
    }
}

/// The views of a list of actions.
pub open spec fn action_views(actions: Seq<FsmAction>) -> Seq<ActionView> {
    actions.map_values(|a: FsmAction| a@)
}

/// The negotiation state machine of one PPP layer.
pub struct PppFsm {
    pub state: FsmState,
    pub tag: &'static str,
    /// Options we want the peer to accept for our side.
    pub desired_local_options: Vec<PppControlOption>,
    /// Options we are willing to accept from the peer.
    pub acceptable_remote_options: Vec<PppControlOption>,
    /// Options we want the peer to include in its request.
    pub desired_remote_options: Vec<PppControlOption>,
    /// Our options as the peer acknowledged them.
    pub negotiated_local_options: Vec<PppControlOption>,
    /// The peer's options as we acknowledged them.
    pub negotiated_remote_options: Vec<PppControlOption>,
    /// Retry counter for timeouts.
    pub restart_counter: u32,
    /// Identifier of the last frame we originated.
    pub identifier: u8,
    /// Identifier of our most recent Configure-Request.
    pub current_request_id: u8,
}

/// The state machine as a value.
pub struct FsmView {
    pub state: FsmState,
    pub desired_local: Seq<OptionView>,
    pub acceptable_remote: Seq<OptionView>,
    pub desired_remote: Seq<OptionView>,
    pub negotiated_local: Seq<OptionView>,
    pub negotiated_remote: Seq<OptionView>,
    pub restart_counter: u32,
    pub identifier: u8,
    pub request_id: u8,
}

impl View for PppFsm {
    type V = FsmView;

    open spec fn view(&self) -> FsmView {
        FsmView {
            state: self.state,
            desired_local: option_views(self.desired_local_options@),
            acceptable_remote: option_views(self.acceptable_remote_options@),
            desired_remote: option_views(self.desired_remote_options@),
            negotiated_local: option_views(self.negotiated_local_options@),
            negotiated_remote: option_views(self.negotiated_remote_options@),
            restart_counter: self.restart_counter,
            identifier: self.identifier,
            request_id: self.current_request_id,
        }
    }
}

// ---------------------------------------------------------------------------
// The transition function.
// ---------------------------------------------------------------------------

/// The identifier after `i`, wrapping from 255 to 0.
pub open spec fn next_id(i: u8) -> u8 {
    if i == 255 { 0 } else { (i + 1) as u8 }
}

/// States in which a Configure-Request of ours is outstanding or acknowledged
/// but the layer is not yet open.
pub open spec fn negotiating(s: FsmState) -> bool {
    s == FsmState::ReqSent || s == FsmState::AckRecvd || s == FsmState::AckSent
}

/// The Configure-Request sent from `v`: a fresh identifier and our desired options.
pub open spec fn request_frame(v: FsmView) -> FrameView {
    (PPP_CONFIG_REQ, next_id(v.identifier), options_bytes(v.desired_local))
}

/// `v` after sending `request_frame(v)`.
pub open spec fn after_request(v: FsmView) -> FsmView {
    FsmView { identifier: next_id(v.identifier), request_id: next_id(v.identifier), ..v }
}

/// Whether some option of `opts` has type `t`.
pub open spec fn has_type(opts: Seq<OptionView>, t: u8) -> bool {
    exists|i: int| 0 <= i < opts.len() && (#[trigger] opts[i]).0 == t
}

/// Whether `acc` holds an option that accepts `o`: same type, and empty data
/// (any value), equal data, or data starting with zero.
pub open spec fn accepts(a: OptionView, o: OptionView) -> bool {
    a.0 == o.0 && (a.1.len() == 0 || a.1 == o.1 || (a.1.len() > 0 && a.1[0] == 0))
}

/// Whether some option of `acc` accepts `o`.
pub open spec fn acceptable(acc: Seq<OptionView>, o: OptionView) -> bool {
    exists|i: int| 0 <= i < acc.len() && accepts(#[trigger] acc[i], o)
}

/// The options of `rcv`, in order, whose type no option of `acc` has.
pub open spec fn unrecognized(acc: Seq<OptionView>, rcv: Seq<OptionView>) -> Seq<OptionView>
    decreases rcv.len(),
{
    if rcv.len() == 0 {
        Seq::empty()
    } else {
        let r = unrecognized(acc, rcv.drop_last());
        if has_type(acc, rcv.last().0) { r } else { r.push(rcv.last()) }
    }
}

/// The options of `desired`, in order, whose type no option of `rcv` has.
pub open spec fn missing(desired: Seq<OptionView>, rcv: Seq<OptionView>) -> Seq<OptionView>
    decreases desired.len(),
{
    if desired.len() == 0 {
        Seq::empty()
    } else {
        let r = missing(desired.drop_last(), rcv);
        if has_type(rcv, desired.last().0) { r } else { r.push(desired.last()) }
    }
}

/// The index of the first option of `acc` of type `t` not yet tried, or -1.
pub open spec fn first_untried(acc: Seq<OptionView>, t: u8) -> int
    decreases acc.len(),
{
    if acc.len() == 0 {
        -1
    } else if acc[0].0 == t && !acc[0].2 {
        0
    } else {
        let r = first_untried(acc.drop_first(), t);
        if r < 0 { -1 } else { r + 1 }
    }
}

/// The option `o` marked as tried.
pub open spec fn mark_tried(o: OptionView) -> OptionView {
    (o.0, o.1, true)
}

/// Going through `rcv` in order: each option that `acc` does not accept is
/// answered by the first untried acceptable option of its type (which becomes
/// tried), or rejected if there is none. Returns the updated acceptable options,
/// the suggested alternatives and the rejected options.
pub open spec fn select_alternatives(acc: Seq<OptionView>, rcv: Seq<OptionView>)
    -> (Seq<OptionView>, Seq<OptionView>, Seq<OptionView>)
    decreases rcv.len(),
{
    if rcv.len() == 0 {
        (acc, Seq::empty(), Seq::empty())
    } else {
        let (a, n, r) = select_alternatives(acc, rcv.drop_last());
        let o = rcv.last();
        if acceptable(a, o) {
            (a, n, r)
        } else {
            let i = first_untried(a, o.0);
            if i >= 0 {
                (a.update(i, mark_tried(a[i])), n.push(mark_tried(a[i])), r)
            } else {
                (a, n, r.push(o))
            }
        }
    }
}

/// The answer to a peer's Configure-Request.
pub enum Verdict {
    /// Acknowledge with this frame; these become the peer's negotiated options.
    Accept(FrameView, Seq<OptionView>),
    /// Answer with this Nak or Reject.
    Refuse(FrameView),
}

/// Evaluating a peer's Configure-Request `f`: unparsable options reject the whole
/// frame; then unrecognized types are rejected; then missing desired options are
/// Nak'ed; then unacceptable values are answered with alternatives (Nak) or
/// rejected; otherwise the options are acknowledged. Returns the acceptable
/// options (with alternatives now marked tried) and the verdict.
pub open spec fn evaluate(v: FsmView, f: FrameView) -> (Seq<OptionView>, Verdict) {
    match parse_options_spec(f.2) {
        Err(_) => (v.acceptable_remote, Verdict::Refuse((PPP_CONFIG_REJECT, f.1, Seq::empty()))),
        Ok(rcv) => {
            let unrec = unrecognized(v.acceptable_remote, rcv);
            let miss = missing(v.desired_remote, rcv);
            let (acc2, naks, rejs) = select_alternatives(v.acceptable_remote, rcv);
            if unrec.len() > 0 {
                (v.acceptable_remote, Verdict::Refuse((PPP_CONFIG_REJECT, f.1, options_bytes(unrec))))
            } else if miss.len() > 0 {
                (v.acceptable_remote, Verdict::Refuse((PPP_CONFIG_NAK, f.1, options_bytes(miss))))
            } else if rejs.len() > 0 {
                (acc2, Verdict::Refuse((PPP_CONFIG_REJECT, f.1, options_bytes(rejs))))
            } else if naks.len() > 0 {
                (acc2, Verdict::Refuse((PPP_CONFIG_NAK, f.1, options_bytes(naks))))
            } else {
                (acc2, Verdict::Accept((PPP_CONFIG_ACK, f.1, options_bytes(rcv)), rcv))
            }
        },
    }
}

/// A peer's Configure-Request.
pub open spec fn config_request_step(v: FsmView, f: FrameView) -> (FsmView, Seq<ActionView>) {
    let (acc, verdict) = evaluate(v, f);
    let v1 = FsmView { acceptable_remote: acc, ..v };
    match v.state {
        FsmState::ReqSent => match verdict {
            Verdict::Accept(ack, opts) => (FsmView { negotiated_remote: opts, state: FsmState::AckSent, ..v1 }, seq![ActionView::Send(ack)]),
            Verdict::Refuse(resp) => (v1, seq![ActionView::Send(resp)]),
        },
        FsmState::AckRecvd => match verdict {
            Verdict::Accept(ack, opts) => (FsmView { negotiated_remote: opts, state: FsmState::Opened, ..v1 }, seq![ActionView::Send(ack), ActionView::LayerUp]),
            Verdict::Refuse(resp) => (v1, seq![ActionView::Send(resp)]),
        },
        FsmState::AckSent => match verdict {
            Verdict::Accept(ack, opts) => (FsmView { negotiated_remote: opts, ..v1 }, seq![ActionView::Send(ack)]),
            Verdict::Refuse(resp) => (FsmView { state: FsmState::ReqSent, ..v1 }, seq![ActionView::Send(resp)]),
        },
        FsmState::Opened => match verdict {
            Verdict::Accept(ack, opts) => {
                let v2 = FsmView { negotiated_remote: opts, state: FsmState::AckSent, ..v1 };
                (after_request(v2), seq![ActionView::Send(ack), ActionView::Send(request_frame(v2))])
            },
            Verdict::Refuse(resp) => {
                let v2 = FsmView { state: FsmState::ReqSent, ..v1 };
                (after_request(v2), seq![ActionView::Send(resp), ActionView::Send(request_frame(v2))])
            },
        },
        _ => (v, Seq::empty()),
    }
}

/// Our negotiated options after the peer's Ack: its options if they parse.
pub open spec fn finalized(old: Seq<OptionView>, data: Seq<u8>) -> Seq<OptionView> {
    match parse_options_spec(data) {
        Ok(opts) => opts,
        Err(_) => old,
    }
}

/// A peer's Configure-Ack; ignored unless it answers our current request.
pub open spec fn config_ack_step(v: FsmView, f: FrameView) -> (FsmView, Seq<ActionView>) {
    if f.1 != v.request_id {
        (v, Seq::empty())
    } else {
        let v1 = FsmView { negotiated_local: finalized(v.negotiated_local, f.2), restart_counter: 0, ..v };
        match v.state {
            FsmState::ReqSent => (FsmView { state: FsmState::AckRecvd, ..v1 }, Seq::empty()),
            FsmState::AckSent => (FsmView { state: FsmState::Opened, ..v1 }, seq![ActionView::LayerUp]),
            _ => (v, Seq::empty()),
        }
    }
}

/// The data of the last option of `opts` of type `t`, or `default`.
pub open spec fn last_data_of_type(opts: Seq<OptionView>, t: u8, default: Seq<u8>) -> Seq<u8>
    decreases opts.len(),
{
    if opts.len() == 0 {
        default
    } else if opts.last().0 == t {
        opts.last().1
    } else {
        last_data_of_type(opts.drop_last(), t, default)
    }
}

/// Our desired options after a Nak: each takes the value the peer suggested
/// last for its type.
pub open spec fn apply_naks(desired: Seq<OptionView>, naks: Seq<OptionView>) -> Seq<OptionView> {
    Seq::new(desired.len(), |i: int| (desired[i].0, last_data_of_type(naks, desired[i].0, desired[i].1), desired[i].2))
}

/// The index of the first option of `opts` of type `t`, or -1.
pub open spec fn first_of_type(opts: Seq<OptionView>, t: u8) -> int
    decreases opts.len(),
{
    if opts.len() == 0 {
        -1
    } else if opts[0].0 == t {
        0
    } else {
        let r = first_of_type(opts.drop_first(), t);
        if r < 0 { -1 } else { r + 1 }
    }
}

/// Our desired options after a Reject: for each rejected option in order, the
/// first desired option of its type is removed.
pub open spec fn apply_rejects(desired: Seq<OptionView>, rejs: Seq<OptionView>) -> Seq<OptionView>
    decreases rejs.len(),
{
    if rejs.len() == 0 {
        desired
    } else {
        let d = apply_rejects(desired, rejs.drop_last());
        let i = first_of_type(d, rejs.last().0);
        if i >= 0 { d.remove(i) } else { d }
    }
}

/// Our desired options after a Nak or Reject `f`, or `None` if its options do not parse.
pub open spec fn updated_desired(desired: Seq<OptionView>, f: FrameView) -> Option<Seq<OptionView>> {
    match parse_options_spec(f.2) {
        Err(_) => None,
        Ok(opts) => Some(
            if f.0 == PPP_CONFIG_NAK {
                apply_naks(desired, opts)
            } else if f.0 == PPP_CONFIG_REJECT {
                apply_rejects(desired, opts)
            } else {
                desired
            },
        ),
    }
}

/// A peer's Configure-Nak or Configure-Reject; ignored unless it answers our
/// current request.
pub open spec fn nak_reject_step(v: FsmView, f: FrameView) -> (FsmView, Seq<ActionView>) {
    if f.1 != v.request_id || !negotiating(v.state) {
        (v, Seq::empty())
    } else {
        match updated_desired(v.desired_local, f) {
            Some(d) => {
                let v1 = FsmView { desired_local: d, restart_counter: 0, ..v };
                let st = if v.state == FsmState::AckSent { FsmState::AckSent } else { FsmState::ReqSent };
                (FsmView { state: st, ..after_request(v1) }, seq![ActionView::Send(request_frame(v1))])
            },
            None => (FsmView { state: FsmState::Stopped, restart_counter: 0, ..v }, seq![ActionView::Shutdown]),
        }
    }
}

/// A peer's Terminate-Request: acknowledged, and the layer goes back to Initial.
pub open spec fn terminate_request_step(v: FsmView, f: FrameView) -> (FsmView, Seq<ActionView>) {
    if negotiating(v.state) || v.state == FsmState::Opened {
        (FsmView { state: FsmState::Initial, ..v }, seq![ActionView::Send((PPP_TERMINATE_ACK, f.1, Seq::empty()))])
    } else {
        (v, Seq::empty())
    }
}

/// A peer's Terminate-Ack: completes our close.
pub open spec fn terminate_ack_step(v: FsmView) -> (FsmView, Seq<ActionView>) {
    if v.state == FsmState::Closing {
        (FsmView { state: FsmState::Closed, ..v }, Seq::empty())
    } else {
        (v, Seq::empty())
    }
}

/// A frame with an unknown code: Code-Reject while negotiating.
pub open spec fn unknown_code_step(v: FsmView, f: FrameView) -> (FsmView, Seq<ActionView>) {
    if negotiating(v.state) {
        let id = next_id(v.identifier);
        (FsmView { identifier: id, ..v }, seq![ActionView::Send((PPP_CODE_REJECT, id, f.2))])
    } else {
        (v, Seq::empty())
    }
}

/// A frame received from the peer, by code.
pub open spec fn frame_step(v: FsmView, f: FrameView) -> (FsmView, Seq<ActionView>) {
    if f.0 == PPP_CONFIG_REQ {
        config_request_step(v, f)
    } else if f.0 == PPP_CONFIG_ACK {
        config_ack_step(v, f)
    } else if f.0 == PPP_CONFIG_NAK || f.0 == PPP_CONFIG_REJECT {
        nak_reject_step(v, f)
    } else if f.0 == PPP_TERMINATE_REQ {
        terminate_request_step(v, f)
    } else if f.0 == PPP_TERMINATE_ACK {
        terminate_ack_step(v)
    } else {
        unknown_code_step(v, f)
    }
}

/// A retransmission timeout: resend our request while retries remain, else stop.
pub open spec fn timeout_step(v: FsmView) -> (FsmView, Seq<ActionView>) {
    if !negotiating(v.state) {
        (v, Seq::empty())
    } else if v.restart_counter < PPP_RESTART_LIMIT {
        let st = if v.state == FsmState::AckSent { FsmState::AckSent } else { FsmState::ReqSent };
        (FsmView { state: st, restart_counter: (v.restart_counter + 1) as u32, ..after_request(v) }, seq![ActionView::Send(request_frame(v))])
    } else {
        (FsmView { state: FsmState::Stopped, restart_counter: (v.restart_counter + 1) as u32, ..v }, seq![ActionView::Shutdown])
    }
}

/// The transition function: the new state and the actions for an event.
pub open spec fn step(v: FsmView, e: EventView) -> (FsmView, Seq<ActionView>) {
    match e {
        EventView::Up => if v.state == FsmState::Initial {
            (FsmView { state: FsmState::Closed, ..v }, Seq::empty())
        } else {
            (v, Seq::empty())
        },
        EventView::Open => if v.state == FsmState::Initial {
            (FsmView { state: FsmState::Closed, restart_counter: 0, ..v }, Seq::empty())
        } else if v.state == FsmState::Closed {
            (FsmView { state: FsmState::ReqSent, restart_counter: 0, ..after_request(v) }, seq![ActionView::Send(request_frame(v))])
        } else {
            (v, Seq::empty())
        },
        EventView::Close => if v.state == FsmState::Opened {
            let id = next_id(v.identifier);
            (FsmView { state: FsmState::Closing, restart_counter: 0, identifier: id, ..v },
             seq![ActionView::Send((PPP_TERMINATE_REQ, id, Seq::empty()))])
        } else {
            (v, Seq::empty())
        },
        EventView::Timeout => timeout_step(v),
        EventView::Receive(f) => frame_step(v, f),
    }
}

/// What `handle_event` requires: the retry counter can still be incremented
/// when a timeout arrives while negotiating.
pub open spec fn step_ok(v: FsmView) -> bool {
    negotiating(v.state) ==> v.restart_counter < u32::MAX
}

// ---------------------------------------------------------------------------
// Lemmas on the search functions.
// ---------------------------------------------------------------------------

proof fn lemma_first_untried(acc: Seq<OptionView>, t: u8, k: int)
    requires
        0 <= k <= acc.len(),
        forall|j: int| 0 <= j < k ==> !((#[trigger] acc[j]).0 == t && !acc[j].2),
    ensures
        k < acc.len() && acc[k].0 == t && !acc[k].2 ==> first_untried(acc, t) == k,
        k == acc.len() ==> first_untried(acc, t) == -1,
    decreases acc.len(),
{
    if acc.len() > 0 && k > 0 {
        let d = acc.drop_first();
        assert forall|j: int| 0 <= j < k - 1 implies !((#[trigger] d[j]).0 == t && !d[j].2) by {
            assert(d[j] == acc[j + 1]);
        }
        lemma_first_untried(d, t, k - 1);
        assert(!(acc[0].0 == t && !acc[0].2));
        if k < acc.len() {
            assert(d[k - 1] == acc[k]);
        }
    }
}

proof fn lemma_first_of_type(opts: Seq<OptionView>, t: u8, k: int)
    requires
        0 <= k <= opts.len(),
        forall|j: int| 0 <= j < k ==> (#[trigger] opts[j]).0 != t,
    ensures
        k < opts.len() && opts[k].0 == t ==> first_of_type(opts, t) == k,
        k == opts.len() ==> first_of_type(opts, t) == -1,
    decreases opts.len(),
{
    if opts.len() > 0 && k > 0 {
        let d = opts.drop_first();
        assert forall|j: int| 0 <= j < k - 1 implies (#[trigger] d[j]).0 != t by {
            assert(d[j] == opts[j + 1]);
        }
        lemma_first_of_type(d, t, k - 1);
        assert(opts[0].0 != t);
        if k < opts.len() {
            assert(d[k - 1] == opts[k]);
        }
    }
}

proof fn lemma_views_push(v: Seq<PppControlOption>, o: PppControlOption)
    ensures
        option_views(v.push(o)) == option_views(v).push(o@),
{
    assert(option_views(v.push(o)) =~= option_views(v).push(o@));
}

proof fn lemma_take_last<A>(s: Seq<A>, i: int)
    requires
        0 <= i < s.len(),
    ensures
        s.take(i + 1).drop_last() == s.take(i),
        s.take(i + 1).last() == s[i],
{
    assert(s.take(i + 1).drop_last() =~= s.take(i));
}

// ---------------------------------------------------------------------------
// Executable helpers.
// ---------------------------------------------------------------------------

/// Whether some option of `opts` has type `t`.
fn has_option_type(opts: &[PppControlOption], t: u8) -> (r: bool)
    ensures
        r == has_type(option_views(opts@), t),
{
    let mut i: usize = 0;
    while i < opts.len()
        invariant
            i <= opts@.len(),
            forall|j: int| 0 <= j < i ==> (#[trigger] option_views(opts@)[j]).0 != t,
        decreases opts@.len() - i,
    {
        if opts[i].option_type == t {
            assert(option_views(opts@)[i as int].0 == t);
            return true;
        }
        i = i + 1;
    }
    false
}

/// Whether two byte strings are equal.
fn bytes_equal(a: &[u8], b: &[u8]) -> (r: bool)
    ensures
        r == (a@ == b@),
{
    if a.len() != b.len() {
        return false;
    }
    let mut i: usize = 0;
    while i < a.len()
        invariant
            i <= a@.len(),
            a@.len() == b@.len(),
            forall|j: int| 0 <= j < i ==> a@[j] == b@[j],
        decreases a@.len() - i,
    {
        if a[i] != b[i] {
            return false;
        }
        i = i + 1;
    }
    assert(a@ =~= b@);
    true
}

/// The action list of a single action.
fn one_action(a: FsmAction) -> (r: Vec<FsmAction>)
    ensures
        action_views(r@) == seq![a@],
{
    let mut v: Vec<FsmAction> = Vec::new();
    v.push(a);
    assert(action_views(v@) =~= seq![a@]);
    v
}

/// The action list of two actions.
fn two_actions(a: FsmAction, b: FsmAction) -> (r: Vec<FsmAction>)
    ensures
        action_views(r@) == seq![a@, b@],
{
    let mut v: Vec<FsmAction> = Vec::new();
    v.push(a);
    v.push(b);
    assert(action_views(v@) =~= seq![a@, b@]);
    v
}

/// An empty action list.
fn no_actions() -> (r: Vec<FsmAction>)
    ensures
        action_views(r@) == Seq::<ActionView>::empty(),
{
    let v: Vec<FsmAction> = Vec::new();
    assert(action_views(v@) =~= Seq::<ActionView>::empty());
    v
}

/// The result of evaluating a peer's Configure-Request.
enum EvalResult {
    /// Ack frame to send, and the accepted options.
    Accept(PppControlFrame, Vec<PppControlOption>),
    /// Nak or Reject frame to send.
    NakOrReject(PppControlFrame),
}

spec fn eval_view(r: EvalResult) -> Verdict {
    match r {
        EvalResult::Accept(f, opts) => Verdict::Accept(f@, option_views(opts@)),
        EvalResult::NakOrReject(f) => Verdict::Refuse(f@),
    }
}

impl PppFsm {
    /// A machine in state Initial with the given option sets.
    pub fn new(
        tag: &'static str,
        desired_local: Vec<PppControlOption>,
        acceptable_remote: Vec<PppControlOption>,
        desired_remote: Vec<PppControlOption>,
    ) -> (r: Self)
        ensures
            r.tag == tag,
            r@ == (FsmView {
                state: FsmState::Initial,
                desired_local: option_views(desired_local@),
                acceptable_remote: option_views(acceptable_remote@),
                desired_remote: option_views(desired_remote@),
                negotiated_local: Seq::empty(),
                negotiated_remote: Seq::empty(),
                restart_counter: 0,
                identifier: 0,
                request_id: 0,
            }),
    {
        let r = PppFsm {
            state: FsmState::Initial,
            tag,
            desired_local_options: desired_local,
            acceptable_remote_options: acceptable_remote,
            desired_remote_options: desired_remote,
            negotiated_local_options: Vec::new(),
            negotiated_remote_options: Vec::new(),
            restart_counter: 0,
            identifier: 0,
            current_request_id: 0,
        };
        assert(option_views(r.negotiated_local_options@) =~= Seq::<OptionView>::empty());
        assert(option_views(r.negotiated_remote_options@) =~= Seq::<OptionView>::empty());
        r
    }

    fn next_identifier(&mut self) -> (r: u8)
        ensures
            r == next_id(old(self).identifier),
            final(self)@ == (FsmView { identifier: r, ..old(self)@ }),
            final(self).tag == old(self).tag,
    {
        self.identifier = self.identifier.wrapping_add(1);
        self.identifier
    }

    /// Build a Configure-Request frame with our desired local options.
    fn build_config_request(&mut self) -> (r: PppControlFrame)
        ensures
            r@ == request_frame(old(self)@),
            final(self)@ == after_request(old(self)@),
            final(self).tag == old(self).tag,
    {
        let id = self.next_identifier();
        self.current_request_id = id;
        PppControlFrame::config_request(id, self.desired_local_options.as_slice())
    }

    fn is_option_recognized(&self, option_type: u8) -> (r: bool)
        ensures
            r == has_type(self@.acceptable_remote, option_type),
    {
        has_option_type(self.acceptable_remote_options.as_slice(), option_type)
    }

    fn is_option_acceptable(&self, option: &PppControlOption) -> (r: bool)
        ensures
            r == acceptable(self@.acceptable_remote, option@),
    {
        let acc = &self.acceptable_remote_options;
        let ghost av = option_views(acc@);
        let mut i: usize = 0;
        while i < acc.len()
            invariant
                i <= acc@.len(),
                av == option_views(acc@),
                av == self@.acceptable_remote,
                forall|j: int| 0 <= j < i ==> !accepts(#[trigger] av[j], option@),
            decreases acc@.len() - i,
        {
            let a = &acc[i];
            if a.option_type == option.option_type
                && (a.data.len() == 0 || bytes_equal(a.data.as_slice(), option.data.as_slice())
                    || (a.data.len() > 0 && a.data[0] == 0)) {
                assert(accepts(av[i as int], option@));
                assert(acceptable(av, option@));
                return true;
            }
            i = i + 1;
        }
        false
    }

    fn select_acceptable_option(&mut self, option: &PppControlOption) -> (r: Option<PppControlOption>)
        ensures
            ({
                let acc = old(self)@.acceptable_remote;
                let i = first_untried(acc, option.option_type);
                if i >= 0 {
                    &&& 0 <= i < acc.len()
                    &&& final(self)@ == (FsmView { acceptable_remote: acc.update(i, mark_tried(acc[i])), ..old(self)@ })
                    &&& r matches Some(o) && o@ == mark_tried(acc[i])
                } else {
                    &&& final(self)@ == old(self)@
                    &&& r is None
                }
            }),
            final(self).tag == old(self).tag,
    {
        let ghost acc = old(self)@.acceptable_remote;
        let mut i: usize = 0;
        while i < self.acceptable_remote_options.len()
            invariant
                i <= self.acceptable_remote_options@.len(),
                self@ == old(self)@,
                self.tag == old(self).tag,
                acc == old(self)@.acceptable_remote,
                forall|j: int| 0 <= j < i ==> !((#[trigger] acc[j]).0 == option.option_type && !acc[j].2),
            decreases self.acceptable_remote_options@.len() - i,
        {
            if self.acceptable_remote_options[i].option_type == option.option_type
                && !self.acceptable_remote_options[i].tried {
                proof {
                    lemma_first_untried(acc, option.option_type, i as int);
                }
                self.acceptable_remote_options[i].tried = true;
                let alt = copy_option(&self.acceptable_remote_options[i]);
                proof {
                    assert(option_views(self.acceptable_remote_options@) =~= acc.update(i as int, mark_tried(acc[i as int])));
                }
                return Some(alt);
            }
            i = i + 1;
        }
        proof {
            lemma_first_untried(acc, option.option_type, i as int);
        }
        None
    }

    /// Evaluate a Config-Request from the peer.
    fn evaluate_config_request(&mut self, frame: &PppControlFrame) -> (r: EvalResult)
        ensures
            ({
                let (acc, verdict) = evaluate(old(self)@, frame@);
                &&& final(self)@ == (FsmView { acceptable_remote: acc, ..old(self)@ })
                &&& eval_view(r) == verdict
            }),
            final(self).tag == old(self).tag,
    {
        let received_options = match parse_options(frame.data.as_slice()) {
            Ok(opts) => opts,
            Err(_) => {
                let empty: Vec<PppControlOption> = Vec::new();
                let reject = PppControlFrame::config_reject(frame.identifier, empty.as_slice());
                assert(option_views(empty@) =~= Seq::<OptionView>::empty());
                return EvalResult::NakOrReject(reject);
            },
        };
        let ghost rcv = option_views(received_options@);
        let ghost v0 = self@;

        // Step 1: options of types we do not know are rejected.
        let mut reject_options: Vec<PppControlOption> = Vec::new();
        let mut i: usize = 0;
        while i < received_options.len()
            invariant
                i <= received_options@.len(),
                rcv == option_views(received_options@),
                self@ == v0,
                option_views(reject_options@) == unrecognized(v0.acceptable_remote, rcv.take(i as int)),
            decreases received_options@.len() - i,
        {
            proof { lemma_take_last(rcv, i as int); }
            if !self.is_option_recognized(received_options[i].option_type) {
                let c = copy_option(&received_options[i]);
                proof { lemma_views_push(reject_options@, c); }
                reject_options.push(c);
            }
            i = i + 1;
        }
        assert(rcv.take(rcv.len() as int) =~= rcv);
        if reject_options.len() > 0 {
            return EvalResult::NakOrReject(PppControlFrame::config_reject(frame.identifier, reject_options.as_slice()));
        }

        // Step 2: desired options the peer left out are Nak'ed.
        let mut nak_options: Vec<PppControlOption> = Vec::new();
        let mut k: usize = 0;
        let ghost dr = v0.desired_remote;
        while k < self.desired_remote_options.len()
            invariant
                k <= self.desired_remote_options@.len(),
                rcv == option_views(received_options@),
                self@ == v0,
                dr == v0.desired_remote,
                option_views(nak_options@) == missing(dr.take(k as int), rcv),
            decreases self.desired_remote_options@.len() - k,
        {
            proof { lemma_take_last(dr, k as int); }
            if !has_option_type(received_options.as_slice(), self.desired_remote_options[k].option_type) {
                let c = copy_option(&self.desired_remote_options[k]);
                proof { lemma_views_push(nak_options@, c); }
                nak_options.push(c);
            }
            k = k + 1;
        }
        assert(dr.take(dr.len() as int) =~= dr);
        if nak_options.len() > 0 {
            return EvalResult::NakOrReject(PppControlFrame::config_nak(frame.identifier, nak_options.as_slice()));
        }

        // Step 3: unacceptable values get an alternative, or are rejected.
        let mut nak_list: Vec<PppControlOption> = Vec::new();
        let mut reject_list: Vec<PppControlOption> = Vec::new();
        let mut m: usize = 0;
        while m < received_options.len()
            invariant
                m <= received_options@.len(),
                rcv == option_views(received_options@),
                self.tag == old(self).tag,
                self@ == (FsmView { acceptable_remote: self@.acceptable_remote, ..v0 }),
                select_alternatives(v0.acceptable_remote, rcv.take(m as int))
                    == (self@.acceptable_remote, option_views(nak_list@), option_views(reject_list@)),
            decreases received_options@.len() - m,
        {
            proof { lemma_take_last(rcv, m as int); }
            let opt = &received_options[m];
            if !self.is_option_acceptable(opt) {
                match self.select_acceptable_option(opt) {
                    Some(alt) => {
                        proof { lemma_views_push(nak_list@, alt); }
                        nak_list.push(alt);
                    },
                    None => {
                        let c = copy_option(opt);
                        proof { lemma_views_push(reject_list@, c); }
                        reject_list.push(c);
                    },
                }
            }
            m = m + 1;
        }
        if reject_list.len() > 0 {
            return EvalResult::NakOrReject(PppControlFrame::config_reject(frame.identifier, reject_list.as_slice()));
        }
        if nak_list.len() > 0 {
            return EvalResult::NakOrReject(PppControlFrame::config_nak(frame.identifier, nak_list.as_slice()));
        }
        let ack = PppControlFrame::config_ack(frame.identifier, received_options.as_slice());
        EvalResult::Accept(ack, received_options)
    }
}

/// The first option of `opts` of type `t`, if any.
fn find_option(opts: &Vec<PppControlOption>, t: u8) -> (r: Option<&PppControlOption>)
    ensures
        ({
            let i = first_of_type(option_views(opts@), t);
            if i >= 0 {
                i < opts@.len() && (r matches Some(o) && o@ == option_views(opts@)[i])
            } else {
                r is None
            }
        }),
{
    let ghost ov = option_views(opts@);
    let mut i: usize = 0;
    while i < opts.len()
        invariant
            i <= opts@.len(),
            ov == option_views(opts@),
            forall|j: int| 0 <= j < i ==> (#[trigger] ov[j]).0 != t,
        decreases opts@.len() - i,
    {
        if opts[i].option_type == t {
            proof { lemma_first_of_type(ov, t, i as int); }
            return Some(&opts[i]);
        }
        i = i + 1;
    }
    proof { lemma_first_of_type(ov, t, i as int); }
    None
}

impl PppFsm {
    /// Take the peer's acknowledged options as our negotiated local options.
    fn finalize_local_options(&mut self, frame: &PppControlFrame)
        ensures
            final(self)@ == (FsmView { negotiated_local: finalized(old(self)@.negotiated_local, frame@.2), ..old(self)@ }),
            final(self).tag == old(self).tag,
    {
        if let Ok(options) = parse_options(frame.data.as_slice()) {
            self.negotiated_local_options = options;
        }
    }

    /// Apply a Nak (new values) to our desired options.
    fn apply_nak_options(&mut self, options: &Vec<PppControlOption>)
        ensures
            final(self)@ == (FsmView {
                desired_local: apply_naks(old(self)@.desired_local, option_views(options@)),
                ..old(self)@
            }),
            final(self).tag == old(self).tag,
    {
        let ghost d0 = old(self)@.desired_local;
        let ghost ov = option_views(options@);
        let mut k: usize = 0;
        assert(apply_naks(d0, ov.take(0)) =~= d0) by {
            assert forall|j: int| 0 <= j < d0.len() implies
                last_data_of_type(ov.take(0), d0[j].0, d0[j].1) == d0[j].1 by {}
        }
        while k < options.len()
            invariant
                k <= options@.len(),
                ov == option_views(options@),
                self.tag == old(self).tag,
                self@ == (FsmView { desired_local: apply_naks(d0, ov.take(k as int)), ..old(self)@ }),
            decreases options@.len() - k,
        {
            let nak_opt = &options[k];
            let ghost before = self@.desired_local;
            let ghost after = apply_naks(d0, ov.take(k + 1));
            proof {
                lemma_take_last(ov, k as int);
                assert forall|j: int| 0 <= j < d0.len() implies #[trigger] after[j] ==
                    (if d0[j].0 == nak_opt.option_type { (before[j].0, nak_opt.data@, before[j].2) } else { before[j] }) by {
                    assert(ov.take(k + 1).last() == ov[k as int]);
                }
            }
            assert(option_views(self.desired_local_options@).len() == self.desired_local_options@.len());
            assert(before.len() == d0.len());
            let mut j: usize = 0;
            while j < self.desired_local_options.len()
                invariant
                    k < options@.len(),
                    nak_opt == &options@[k as int],
                    j <= self.desired_local_options@.len(),
                    before.len() == d0.len(),
                    after.len() == d0.len(),
                    self.desired_local_options@.len() == d0.len(),
                    self.tag == old(self).tag,
                    forall|x: int| 0 <= x < d0.len() ==> #[trigger] after[x] ==
                        (if d0[x].0 == nak_opt.option_type { (before[x].0, nak_opt.data@, before[x].2) } else { before[x] }),
                    forall|x: int| 0 <= x < d0.len() ==> before[x].0 == d0[x].0,
                    forall|x: int| 0 <= x < j ==> #[trigger] option_views(self.desired_local_options@)[x] == after[x],
                    forall|x: int| j <= x < d0.len() ==> #[trigger] option_views(self.desired_local_options@)[x] == before[x],
                    self@ == (FsmView { desired_local: option_views(self.desired_local_options@), ..old(self)@ }),
                decreases self.desired_local_options@.len() - j,
            {
                let ghost old_vec = self.desired_local_options@;
                if self.desired_local_options[j].option_type == nak_opt.option_type {
                    self.desired_local_options[j].data = slice_to_vec(nak_opt.data.as_slice());
                }
                proof {
                    assert(option_views(old_vec)[j as int] == before[j as int]);
                    assert(old_vec[j as int]@ == before[j as int]);
                    if old_vec[j as int].option_type == nak_opt.option_type {
                        assert(self.desired_local_options@[j as int]@ == (before[j as int].0, nak_opt.data@, before[j as int].2));
                    } else {
                        assert(self.desired_local_options@[j as int] == old_vec[j as int]);
                    }
                    assert(option_views(self.desired_local_options@)[j as int] == after[j as int]);
                    assert forall|x: int| 0 <= x < j + 1 implies
                        #[trigger] option_views(self.desired_local_options@)[x] == after[x] by {
                        if x < j {
                            assert(self.desired_local_options@[x] == old_vec[x]);
                            assert(option_views(old_vec)[x] == after[x]);
                        }
                    }
                    assert forall|x: int| j + 1 <= x < d0.len() implies
                        #[trigger] option_views(self.desired_local_options@)[x] == before[x] by {
                        assert(self.desired_local_options@[x] == old_vec[x]);
                        assert(option_views(old_vec)[x] == before[x]);
                    }
                }
                j = j + 1;
            }
            proof {
                assert(option_views(self.desired_local_options@) =~= after);
            }
            k = k + 1;
        }
        assert(ov.take(ov.len() as int) =~= ov);
    }

    /// Apply a Reject (drop options) to our desired options.
    fn apply_reject_options(&mut self, options: &Vec<PppControlOption>)
        ensures
            final(self)@ == (FsmView {
                desired_local: apply_rejects(old(self)@.desired_local, option_views(options@)),
                ..old(self)@
            }),
            final(self).tag == old(self).tag,
    {
        let ghost d0 = old(self)@.desired_local;
        let ghost ov = option_views(options@);
        let mut k: usize = 0;
        assert(ov.take(0) =~= Seq::<OptionView>::empty());
        while k < options.len()
            invariant
                k <= options@.len(),
                ov == option_views(options@),
                self.tag == old(self).tag,
                self@ == (FsmView { desired_local: apply_rejects(d0, ov.take(k as int)), ..old(self)@ }),
            decreases options@.len() - k,
        {
            proof { lemma_take_last(ov, k as int); }
            let t = options[k].option_type;
            let ghost dv = option_views(self.desired_local_options@);
            let mut pos: usize = 0;
            while pos < self.desired_local_options.len() && self.desired_local_options[pos].option_type != t
                invariant
                    pos <= self.desired_local_options@.len(),
                    dv == option_views(self.desired_local_options@),
                    forall|x: int| 0 <= x < pos ==> (#[trigger] dv[x]).0 != t,
                decreases self.desired_local_options@.len() - pos,
            {
                pos = pos + 1;
            }
            proof { lemma_first_of_type(dv, t, pos as int); }
            if pos < self.desired_local_options.len() {
                self.desired_local_options.remove(pos);
                proof {
                    assert(option_views(self.desired_local_options@) =~= dv.remove(pos as int));
                }
            }
            k = k + 1;
        }
        assert(ov.take(ov.len() as int) =~= ov);
    }

    /// Update desired local options from a Nak or Reject. Returns false if its
    /// options cannot be parsed, in which case the negotiation must stop.
    fn update_desired_local_options(&mut self, frame: &PppControlFrame) -> (r: bool)
        ensures
            match updated_desired(old(self)@.desired_local, frame@) {
                Some(d) => r && final(self)@ == (FsmView { desired_local: d, ..old(self)@ }),
                None => !r && final(self)@ == old(self)@,
            },
            final(self).tag == old(self).tag,
    {
        let options = match parse_options(frame.data.as_slice()) {
            Ok(opts) => opts,
            Err(_) => return false,
        };
        if frame.code == PPP_CONFIG_NAK {
            self.apply_nak_options(&options);
            true
        } else if frame.code == PPP_CONFIG_REJECT {
            self.apply_reject_options(&options);
            true
        } else {
            true
        }
    }

    /// Look up a negotiated local option by type.
    pub fn get_local_option(&self, option_type: u8) -> (r: Option<&PppControlOption>)
        ensures
            ({
                let i = first_of_type(self@.negotiated_local, option_type);
                if i >= 0 {
                    i < self@.negotiated_local.len() && (r matches Some(o) && o@ == self@.negotiated_local[i])
                } else {
                    r is None
                }
            }),
    {
        find_option(&self.negotiated_local_options, option_type)
    }

    /// Look up a negotiated remote option by type.
    pub fn get_remote_option(&self, option_type: u8) -> (r: Option<&PppControlOption>)
        ensures
            ({
                let i = first_of_type(self@.negotiated_remote, option_type);
                if i >= 0 {
                    i < self@.negotiated_remote.len() && (r matches Some(o) && o@ == self@.negotiated_remote[i])
                } else {
                    r is None
                }
            }),
    {
        find_option(&self.negotiated_remote_options, option_type)
    }

    /// Whether the layer is Opened.
    pub fn is_opened(&self) -> (r: bool)
        ensures
            r == (self.state == FsmState::Opened),
    {
        self.state == FsmState::Opened
    }
}

impl PppFsm {
    /// Process an event and return the actions it calls for.
    pub fn handle_event(&mut self, event: FsmEvent) -> (r: Vec<FsmAction>)
        requires
            step_ok(old(self)@),
        ensures
            (final(self)@, action_views(r@)) == step(old(self)@, event@),
            final(self).tag == old(self).tag,
    {
        match event {
            FsmEvent::Up => self.handle_up(),
            FsmEvent::Open => self.handle_open(),
            FsmEvent::Close => self.handle_close(),
            FsmEvent::Timeout => self.handle_timeout(),
            FsmEvent::ReceiveFrame(frame) => self.handle_frame(frame),
        }
    }

    fn handle_up(&mut self) -> (r: Vec<FsmAction>)
        ensures
            (final(self)@, action_views(r@)) == step(old(self)@, EventView::Up),
            final(self).tag == old(self).tag,
    {
        if self.state == FsmState::Initial {
            self.state = FsmState::Closed;
        }
        no_actions()
    }

    fn handle_open(&mut self) -> (r: Vec<FsmAction>)
        ensures
            (final(self)@, action_views(r@)) == step(old(self)@, EventView::Open),
            final(self).tag == old(self).tag,
    {
        match self.state {
            FsmState::Initial => {
                // Up has not come yet: go to Closed; the layer is not up.
                self.state = FsmState::Closed;
                self.restart_counter = 0;
                no_actions()
            },
            FsmState::Closed => {
                self.restart_counter = 0;
                let req = self.build_config_request();
                self.state = FsmState::ReqSent;
                one_action(FsmAction::SendFrame(req))
            },
            _ => no_actions(),
        }
    }

    fn handle_close(&mut self) -> (r: Vec<FsmAction>)
        ensures
            (final(self)@, action_views(r@)) == step(old(self)@, EventView::Close),
            final(self).tag == old(self).tag,
    {
        match self.state {
            FsmState::Opened => {
                let id = self.next_identifier();
                let frame = PppControlFrame::terminate_request(id);
                self.restart_counter = 0;
                self.state = FsmState::Closing;
                one_action(FsmAction::SendFrame(frame))
            },
            _ => no_actions(),
        }
    }

    fn handle_timeout(&mut self) -> (r: Vec<FsmAction>)
        requires
            step_ok(old(self)@),
        ensures
            (final(self)@, action_views(r@)) == timeout_step(old(self)@),
            final(self).tag == old(self).tag,
    {
        match self.state {
            FsmState::ReqSent | FsmState::AckRecvd | FsmState::AckSent => {
                let old_counter = self.restart_counter;
                self.restart_counter = self.restart_counter + 1;
                if old_counter < PPP_RESTART_LIMIT {
                    let req = self.build_config_request();
                    // Timeout in AckRecvd drops back to ReqSent; AckSent stays.
                    match self.state {
                        FsmState::AckSent => {
                            self.state = FsmState::AckSent;
                        },
                        _ => {
                            self.state = FsmState::ReqSent;
                        },
                    }
                    one_action(FsmAction::SendFrame(req))
                } else {
                    self.state = FsmState::Stopped;
                    one_action(FsmAction::Shutdown)
                }
            },
            _ => no_actions(),
        }
    }

    fn handle_frame(&mut self, frame: PppControlFrame) -> (r: Vec<FsmAction>)
        ensures
            (final(self)@, action_views(r@)) == frame_step(old(self)@, frame@),
            final(self).tag == old(self).tag,
    {
        if frame.code == PPP_CONFIG_REQ {
            self.handle_config_request(frame)
        } else if frame.code == PPP_CONFIG_ACK {
            self.handle_config_ack(frame)
        } else if frame.code == PPP_CONFIG_NAK || frame.code == PPP_CONFIG_REJECT {
            self.handle_config_nak_reject(frame)
        } else if frame.code == PPP_TERMINATE_REQ {
            self.handle_terminate_request(frame)
        } else if frame.code == PPP_TERMINATE_ACK {
            self.handle_terminate_ack(frame)
        } else {
            self.handle_unknown_code(frame)
        }
    }

    fn handle_config_request(&mut self, frame: PppControlFrame) -> (r: Vec<FsmAction>)
        ensures
            (final(self)@, action_views(r@)) == config_request_step(old(self)@, frame@),
            final(self).tag == old(self).tag,
    {
        match self.state {
            FsmState::ReqSent => {
                match self.evaluate_config_request(&frame) {
                    EvalResult::Accept(ack, remote_opts) => {
                        self.negotiated_remote_options = remote_opts;
                        self.state = FsmState::AckSent;
                        one_action(FsmAction::SendFrame(ack))
                    },
                    EvalResult::NakOrReject(response) => {
                        one_action(FsmAction::SendFrame(response))
                    },
                }
            },
            FsmState::AckRecvd => {
                match self.evaluate_config_request(&frame) {
                    EvalResult::Accept(ack, remote_opts) => {
                        self.negotiated_remote_options = remote_opts;
                        self.state = FsmState::Opened;
                        two_actions(FsmAction::SendFrame(ack), FsmAction::LayerUp)
                    },
                    EvalResult::NakOrReject(response) => {
                        one_action(FsmAction::SendFrame(response))
                    },
                }
            },
            FsmState::AckSent => {
                match self.evaluate_config_request(&frame) {
                    EvalResult::Accept(ack, remote_opts) => {
                        // Stay in AckSent, waiting for the Ack of our request.
                        self.negotiated_remote_options = remote_opts;
                        one_action(FsmAction::SendFrame(ack))
                    },
                    EvalResult::NakOrReject(response) => {
                        self.state = FsmState::ReqSent;
                        one_action(FsmAction::SendFrame(response))
                    },
                }
            },
            FsmState::Opened => {
                // The peer renegotiates: answer, and send our request again.
                match self.evaluate_config_request(&frame) {
                    EvalResult::Accept(ack, remote_opts) => {
                        self.negotiated_remote_options = remote_opts;
                        self.state = FsmState::AckSent;
                        let req = self.build_config_request();
                        two_actions(FsmAction::SendFrame(ack), FsmAction::SendFrame(req))
                    },
                    EvalResult::NakOrReject(response) => {
                        self.state = FsmState::ReqSent;
                        let req = self.build_config_request();
                        two_actions(FsmAction::SendFrame(response), FsmAction::SendFrame(req))
                    },
                }
            },
            _ => no_actions(),
        }
    }

    fn handle_config_ack(&mut self, frame: PppControlFrame) -> (r: Vec<FsmAction>)
        ensures
            (final(self)@, action_views(r@)) == config_ack_step(old(self)@, frame@),
            final(self).tag == old(self).tag,
    {
        // Only an Ack of our current request counts.
        if frame.identifier != self.current_request_id {
            return no_actions();
        }
        match self.state {
            FsmState::ReqSent => {
                self.finalize_local_options(&frame);
                self.restart_counter = 0;
                self.state = FsmState::AckRecvd;
                no_actions()
            },
            FsmState::AckSent => {
                self.finalize_local_options(&frame);
                self.restart_counter = 0;
                self.state = FsmState::Opened;
                one_action(FsmAction::LayerUp)
            },
            _ => no_actions(),
        }
    }

    fn handle_config_nak_reject(&mut self, frame: PppControlFrame) -> (r: Vec<FsmAction>)
        requires
            frame@.0 == PPP_CONFIG_NAK || frame@.0 == PPP_CONFIG_REJECT,
        ensures
            (final(self)@, action_views(r@)) == nak_reject_step(old(self)@, frame@),
            final(self).tag == old(self).tag,
    {
        // Only a Nak or Reject of our current request counts.
        if frame.identifier != self.current_request_id {
            return no_actions();
        }
        match self.state {
            FsmState::ReqSent | FsmState::AckRecvd | FsmState::AckSent => {
                let was_ack_sent = self.state == FsmState::AckSent;
                if self.update_desired_local_options(&frame) {
                    self.restart_counter = 0;
                    let req = self.build_config_request();
                    if !was_ack_sent {
                        self.state = FsmState::ReqSent;
                    }
                    one_action(FsmAction::SendFrame(req))
                } else {
                    self.restart_counter = 0;
                    self.state = FsmState::Stopped;
                    one_action(FsmAction::Shutdown)
                }
            },
            _ => no_actions(),
        }
    }

    fn handle_terminate_request(&mut self, frame: PppControlFrame) -> (r: Vec<FsmAction>)
        ensures
            (final(self)@, action_views(r@)) == terminate_request_step(old(self)@, frame@),
            final(self).tag == old(self).tag,
    {
        match self.state {
            FsmState::ReqSent | FsmState::AckRecvd | FsmState::AckSent | FsmState::Opened => {
                let ack = PppControlFrame::terminate_ack(frame.identifier);
                self.state = FsmState::Initial;
                one_action(FsmAction::SendFrame(ack))
            },
            _ => no_actions(),
        }
    }

    fn handle_terminate_ack(&mut self, _frame: PppControlFrame) -> (r: Vec<FsmAction>)
        ensures
            (final(self)@, action_views(r@)) == terminate_ack_step(old(self)@),
            final(self).tag == old(self).tag,
    {
        match self.state {
            FsmState::Closing => {
                self.state = FsmState::Closed;
                no_actions()
            },
            _ => no_actions(),
        }
    }

    fn handle_unknown_code(&mut self, frame: PppControlFrame) -> (r: Vec<FsmAction>)
        ensures
            (final(self)@, action_views(r@)) == unknown_code_step(old(self)@, frame@),
            final(self).tag == old(self).tag,
    {
        match self.state {
            FsmState::ReqSent | FsmState::AckRecvd | FsmState::AckSent => {
                let id = self.next_identifier();
                let reject = PppControlFrame::code_reject(id, frame.data.as_slice());
                one_action(FsmAction::SendFrame(reject))
            },
            _ => no_actions(),
        }
    }
}

// ---------------------------------------------------------------------------
// Laws of the state machine.
// ---------------------------------------------------------------------------

/// While a request is outstanding or the layer is open, the retry counter is
/// within the restart limit.
pub open spec fn retries_bounded(v: FsmView) -> bool {
    (negotiating(v.state) || v.state == FsmState::Opened) ==> v.restart_counter <= PPP_RESTART_LIMIT
}

/// A new machine starts with a bounded retry counter, and every transition keeps
/// it bounded; a machine with a bounded counter can take any event.
pub proof fn lemma_retries_stay_bounded(v: FsmView, e: EventView)
    requires
        retries_bounded(v),
    ensures
        step_ok(v),
        retries_bounded(step(v, e).0),
{
}

/// A peer's Configure-Request that names option types we do not know is
/// refused with a Configure-Reject that carries exactly those options, in the
/// order given, under the request's identifier; nothing is negotiated, and a
/// machine that had acknowledged the peer before negotiates again.
pub proof fn lemma_unknown_options_rejected(v: FsmView, f: FrameView, rcv: Seq<OptionView>)
    requires
        f.0 == PPP_CONFIG_REQ,
        parse_options_spec(f.2) == Ok::<Seq<OptionView>, ProtoError>(rcv),
        unrecognized(v.acceptable_remote, rcv).len() > 0,
        negotiating(v.state),
    ensures
        step(v, EventView::Receive(f)).1
            == seq![ActionView::Send((PPP_CONFIG_REJECT, f.1, options_bytes(unrecognized(v.acceptable_remote, rcv))))],
        step(v, EventView::Receive(f)).0.state == (if v.state == FsmState::AckSent { FsmState::ReqSent } else { v.state }),
        step(v, EventView::Receive(f)).0.negotiated_remote == v.negotiated_remote,
        step(v, EventView::Receive(f)).0.acceptable_remote == v.acceptable_remote,
{
}

/// A peer's Configure-Request whose options are all known, all acceptable and
/// include every option we want from the peer is acknowledged with the same
/// options under its identifier, and they become the peer's negotiated
/// options; waiting for our own Ack, the machine moves on to Ack-Sent.
pub proof fn lemma_acceptable_request_acked(v: FsmView, f: FrameView, rcv: Seq<OptionView>)
    requires
        f.0 == PPP_CONFIG_REQ,
        parse_options_spec(f.2) == Ok::<Seq<OptionView>, ProtoError>(rcv),
        unrecognized(v.acceptable_remote, rcv).len() == 0,
        missing(v.desired_remote, rcv).len() == 0,
        select_alternatives(v.acceptable_remote, rcv).1.len() == 0,
        select_alternatives(v.acceptable_remote, rcv).2.len() == 0,
        v.state == FsmState::ReqSent,
    ensures
        step(v, EventView::Receive(f)).1 == seq![ActionView::Send((PPP_CONFIG_ACK, f.1, options_bytes(rcv)))],
        step(v, EventView::Receive(f)).0.state == FsmState::AckSent,
        step(v, EventView::Receive(f)).0.negotiated_remote == rcv,
{
}

/// When the peer's Configure-Request carrying `opts` (each with at most 253
/// data bytes, so that its length byte does not wrap) is acknowledged, the
/// peer's negotiated options are exactly those options, untried and in order:
/// looking one up by type (`get_remote_option`) finds the first option of
/// that type in the request.
pub proof fn lemma_acked_request_sets_remote_options(v: FsmView, id: u8, opts: Seq<OptionView>)
    requires
        forall|i: int| 0 <= i < opts.len() ==> #[trigger] opts[i].1.len() <= 253,
        ({
            let acts = step(v, EventView::Receive((PPP_CONFIG_REQ, id, options_bytes(opts)))).1;
            exists|i: int| 0 <= i < acts.len() && (#[trigger] acts[i] matches ActionView::Send(g) && g.0 == PPP_CONFIG_ACK)
        }),
    ensures
        step(v, EventView::Receive((PPP_CONFIG_REQ, id, options_bytes(opts)))).0.negotiated_remote == untried(opts),
{
    let f = (PPP_CONFIG_REQ, id, options_bytes(opts));
    lemma_parse_options_roundtrip(opts);
    let acts = step(v, EventView::Receive(f)).1;
    let i = choose|i: int| 0 <= i < acts.len() && (#[trigger] acts[i] matches ActionView::Send(g) && g.0 == PPP_CONFIG_ACK);
    assert(acts[i] matches ActionView::Send(g) && g.0 == PPP_CONFIG_ACK);
}

/// Whether some option of `rejs` has type `t`.
pub open spec fn type_rejected(rejs: Seq<OptionView>, t: u8) -> bool {
    exists|j: int| 0 <= j < rejs.len() && (#[trigger] rejs[j]).0 == t
}

proof fn lemma_first_of_type_found(opts: Seq<OptionView>, t: u8)
    ensures
        first_of_type(opts, t) >= 0 ==> {
            &&& first_of_type(opts, t) < opts.len()
            &&& opts[first_of_type(opts, t)].0 == t
            &&& forall|k: int| 0 <= k < first_of_type(opts, t) ==> (#[trigger] opts[k]).0 != t
        },
        first_of_type(opts, t) < 0 ==> forall|k: int| 0 <= k < opts.len() ==> (#[trigger] opts[k]).0 != t,
    decreases opts.len(),
{
    if opts.len() > 0 {
        let d = opts.drop_first();
        lemma_first_of_type_found(d, t);
        assert forall|k: int| 1 <= k < opts.len() implies opts[k] == d[k - 1] by {}
    }
}

proof fn lemma_filter_single(x: OptionView, pred: spec_fn(OptionView) -> bool)
    ensures
        seq![x].filter(pred) == (if pred(x) { seq![x] } else { Seq::<OptionView>::empty() }),
{
    reveal_with_fuel(Seq::filter, 2);
    assert(seq![x].drop_last() =~= Seq::<OptionView>::empty());
}

/// Removing the element at `i` splits a sequence's filter around it.
proof fn lemma_filter_remove(s: Seq<OptionView>, i: int, pred: spec_fn(OptionView) -> bool)
    requires
        0 <= i < s.len(),
    ensures
        s.filter(pred) == s.take(i).filter(pred) + seq![s[i]].filter(pred) + s.skip(i + 1).filter(pred),
        s.remove(i).filter(pred) == s.take(i).filter(pred) + s.skip(i + 1).filter(pred),
{
    assert(s =~= s.take(i) + seq![s[i]] + s.skip(i + 1));
    assert(s.remove(i) =~= s.take(i) + s.skip(i + 1));
    Seq::filter_distributes_over_add(s.take(i) + seq![s[i]], s.skip(i + 1), pred);
    Seq::filter_distributes_over_add(s.take(i), seq![s[i]], pred);
    Seq::filter_distributes_over_add(s.take(i), s.skip(i + 1), pred);
}

proof fn lemma_apply_rejects_keeps(desired: Seq<OptionView>, rejs: Seq<OptionView>, types: Seq<OptionView>)
    requires
        forall|j: int| 0 <= j < rejs.len() ==> type_rejected(types, (#[trigger] rejs[j]).0),
    ensures
        apply_rejects(desired, rejs).filter(|o: OptionView| !type_rejected(types, o.0))
            == desired.filter(|o: OptionView| !type_rejected(types, o.0)),
    decreases rejs.len(),
{
    let kept = |o: OptionView| !type_rejected(types, o.0);
    if rejs.len() > 0 {
        let front = rejs.drop_last();
        assert forall|j: int| 0 <= j < front.len() implies type_rejected(types, (#[trigger] front[j]).0) by {
            assert(front[j] == rejs[j]);
        }
        lemma_apply_rejects_keeps(desired, front, types);
        let d = apply_rejects(desired, front);
        let t = rejs.last().0;
        assert(type_rejected(types, rejs[rejs.len() - 1].0));
        lemma_first_of_type_found(d, t);
        let i = first_of_type(d, t);
        if i >= 0 {
            lemma_filter_remove(d, i, kept);
            lemma_filter_single(d[i], kept);
            assert(!kept(d[i]));
            assert(d.take(i).filter(kept) + Seq::<OptionView>::empty() =~= d.take(i).filter(kept));
        }
    }
}

/// A Configure-Reject of our current request drops only options of the
/// rejected types: every desired option whose type the peer did not reject
/// stays, in order, and the next Configure-Request carries the options left.
pub proof fn lemma_reject_keeps_other_options(v: FsmView, rejs: Seq<OptionView>)
    requires
        negotiating(v.state),
        forall|i: int| 0 <= i < rejs.len() ==> #[trigger] rejs[i].1.len() <= 253,
    ensures
        ({
            let (v2, acts) = step(v, EventView::Receive((PPP_CONFIG_REJECT, v.request_id, options_bytes(rejs))));
            &&& v2.desired_local.filter(|o: OptionView| !type_rejected(rejs, o.0))
                == v.desired_local.filter(|o: OptionView| !type_rejected(rejs, o.0))
            &&& acts == seq![ActionView::Send((PPP_CONFIG_REQ, next_id(v.identifier), options_bytes(v2.desired_local)))]
        }),
{
    lemma_parse_options_roundtrip(rejs);
    let u = untried(rejs);
    assert forall|j: int| 0 <= j < u.len() implies type_rejected(rejs, (#[trigger] u[j]).0) by {
        assert(u[j].0 == rejs[j].0);
    }
    lemma_apply_rejects_keeps(v.desired_local, u, rejs);
}

/// A Configure-Reject of one option removes exactly the first desired option
/// of its type, if there is one: the options of that type lose their first,
/// and the others all stay, in order.
pub proof fn lemma_reject_removes_first_of_type(v: FsmView, rej: OptionView)
    requires
        negotiating(v.state),
        rej.1.len() <= 253,
    ensures
        ({
            let v2 = step(v, EventView::Receive((PPP_CONFIG_REJECT, v.request_id, options_bytes(seq![rej])))).0;
            let of_type = |o: OptionView| o.0 == rej.0;
            let d = v.desired_local;
            &&& d.filter(of_type).len() > 0 ==> {
                &&& v2.desired_local.len() == d.len() - 1
                &&& v2.desired_local.filter(of_type) == d.filter(of_type).drop_first()
            }
            &&& d.filter(of_type).len() == 0 ==> v2.desired_local == d
        }),
{
    let rejs = seq![rej];
    lemma_parse_options_roundtrip(rejs);
    let u = untried(rejs);
    assert(u.drop_last() =~= Seq::<OptionView>::empty());
    assert(u.last().0 == rej.0);
    let d = v.desired_local;
    let of_type = |o: OptionView| o.0 == rej.0;
    lemma_first_of_type_found(d, rej.0);
    let i = first_of_type(d, rej.0);
    assert(apply_rejects(d, u.drop_last()) == d);
    assert(apply_rejects(d, u) == (if i >= 0 { d.remove(i) } else { d }));
    if i >= 0 {
        lemma_filter_remove(d, i, of_type);
        lemma_filter_single(d[i], of_type);
        assert forall|k: int| 0 <= k < d.take(i).len() implies !of_type(#[trigger] d.take(i)[k]) by {
            assert(d.take(i)[k] == d[k]);
        }
        d.take(i).lemma_all_neg_filter_empty(of_type);
        assert(d.take(i).filter(of_type) =~= Seq::<OptionView>::empty());
        assert(d.filter(of_type) =~= seq![d[i]] + d.skip(i + 1).filter(of_type));
        assert(d.filter(of_type).drop_first() =~= d.skip(i + 1).filter(of_type));
        assert(d.remove(i).filter(of_type) =~= d.skip(i + 1).filter(of_type));
    } else {
        assert forall|k: int| 0 <= k < d.len() implies !of_type(#[trigger] d[k]) by {}
        d.lemma_all_neg_filter_empty(of_type);
        assert(d.filter(of_type).len() == 0);
    }
}

/// Stopped is final: no event changes a stopped machine or makes it act.
pub proof fn lemma_stopped_is_final(v: FsmView, e: EventView)
    requires
        v.state == FsmState::Stopped,
    ensures
        step(v, e) == (v, Seq::<ActionView>::empty()),
{
}

/// The machine asks for shutdown exactly when it enters Stopped.
pub proof fn lemma_shutdown_iff_stopping(v: FsmView, e: EventView)
    ensures
        step(v, e).1.contains(ActionView::Shutdown) <==> (v.state != FsmState::Stopped && step(v, e).0.state == FsmState::Stopped),
{
    let (v2, acts) = step(v, e);
    if acts.contains(ActionView::Shutdown) {
        let i = choose|i: int| 0 <= i < acts.len() && acts[i] == ActionView::Shutdown;
        assert(acts[i] == ActionView::Shutdown);
    }
    if v.state != FsmState::Stopped && v2.state == FsmState::Stopped {
        assert(acts[0] == ActionView::Shutdown);
    }
}

/// Entering Opened always reports the layer as up.
pub proof fn lemma_opening_reports_layer_up(v: FsmView, e: EventView)
    requires
        v.state != FsmState::Opened,
        step(v, e).0.state == FsmState::Opened,
    ensures
        step(v, e).1.contains(ActionView::LayerUp),
{
    let acts = step(v, e).1;
    if acts.len() == 1 {
        assert(acts[0] == ActionView::LayerUp);
    } else {
        assert(acts[1] == ActionView::LayerUp);
    }
}

/// The layer is reported up only when the machine enters Opened.
pub proof fn lemma_layer_up_only_when_opened(v: FsmView, e: EventView)
    requires
        step(v, e).1.contains(ActionView::LayerUp),
    ensures
        step(v, e).0.state == FsmState::Opened,
{
    let acts = step(v, e).1;
    let i = choose|i: int| 0 <= i < acts.len() && acts[i] == ActionView::LayerUp;
    assert(acts[i] == ActionView::LayerUp);
}

/// An Ack, Nak or Reject that does not carry the identifier of our current
/// request changes nothing and is not answered.
pub proof fn lemma_stale_answers_ignored(v: FsmView, f: FrameView)
    requires
        f.0 == PPP_CONFIG_ACK || f.0 == PPP_CONFIG_NAK || f.0 == PPP_CONFIG_REJECT,
        f.1 != v.request_id,
    ensures
        step(v, EventView::Receive(f)) == (v, Seq::<ActionView>::empty()),
{
}

/// Every Configure-Request the machine sends carries our desired options and
/// the identifier it will accept answers for.
pub proof fn lemma_requests_are_tracked(v: FsmView, e: EventView, i: int)
    requires
        0 <= i < step(v, e).1.len(),
        step(v, e).1[i] matches ActionView::Send(f) && f.0 == PPP_CONFIG_REQ,
    ensures
        step(v, e).1[i] matches ActionView::Send(f)
            && f.1 == step(v, e).0.request_id
            && f.2 == options_bytes(step(v, e).0.desired_local),
{
    match e {
        EventView::Receive(f) => {
            if f.0 == PPP_CONFIG_REQ {
                let (acc, verdict) = evaluate(v, f);
                match verdict {
                    Verdict::Accept(ack, opts) => { assert(ack.0 == PPP_CONFIG_ACK); },
                    Verdict::Refuse(resp) => {
                        assert(resp.0 == PPP_CONFIG_NAK || resp.0 == PPP_CONFIG_REJECT);
                    },
                }
            }
        },
        _ => {},
    }
}

} // verus!
