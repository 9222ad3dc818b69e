//! Design D10 acceptance gate evaluator.
//!
//! Evaluates a single guest transcript for all four D10 gates (enumeration,
//! resources, queue, fences). Always runs to completion and emits a
//! structured report; absence of guest Metal is an honest fail, not a halt.
//! `metal_verified` is true only when the transcript comes from a live guest
//! session and every D10 evidence token appears in that one transcript.
//! Fixtures and host-process transcripts stay unverified.
//!
//! A token "appears" when its UTF-8 bytes occur in the transcript's bytes.
use vstd::prelude::*;
use crate::display_path_freeze::{freeze_under_metal_track, DisplayPathFreeze};
use crate::metal_acceptance::{MetalAcceptanceGate, MetalAcceptanceReport};
use crate::metal_guest_probe::GuestMetalProbe;
use crate::metal_public_abi::MetalPublicAbi;
use crate::metal_transport::MetalTransport;
use crate::text::{contains_bytes, spec_contains_bytes};

verus! {

/// Machine-checkable marker for the D10 gates evaluator.
pub const M6_D10_GATES_DOC_MARKER: &'static str = "M6_D10_GATES:evaluator-acceptance-pending";

/// Evidence tokens a real guest Metal probe must emit, all in one transcript.
pub const D10_EVIDENCE_ENUMERATE: &'static str = "NCMETAL_D10:enumerate:ok";
pub const D10_EVIDENCE_RESOURCE: &'static str = "NCMETAL_D10:resource:ok";
pub const D10_EVIDENCE_QUEUE: &'static str = "NCMETAL_D10:queue:ok";
pub const D10_EVIDENCE_FENCE: &'static str = "NCMETAL_D10:fence:ok";

/// Where a transcript came from. Only [`TranscriptProvenance::GuestLive`] may
/// promote `metal_verified`.
#[derive(Debug, PartialEq, Eq)]
pub enum TranscriptProvenance {
    /// No guest transcript attached.
    AbsentGuestTranscript { reason: String },
    /// Host-process or labeled fixture input; never promotes Metal acceptance.
    HostProcessOrFixture { label: String },
    /// Live guest session transcript.
    GuestLive { session_id: String },
}

/// `a` and `b` are the same provenance with the same text.
pub open spec fn spec_same_provenance(a: TranscriptProvenance, b: TranscriptProvenance) -> bool {
    match (a, b) {
        (
            TranscriptProvenance::AbsentGuestTranscript { reason: x },
            TranscriptProvenance::AbsentGuestTranscript { reason: y },
        ) => x@ == y@,
        (
            TranscriptProvenance::HostProcessOrFixture { label: x },
            TranscriptProvenance::HostProcessOrFixture { label: y },
        ) => x@ == y@,
        (
            TranscriptProvenance::GuestLive { session_id: x },
            TranscriptProvenance::GuestLive { session_id: y },
        ) => x@ == y@,
        _ => false,
    }
}

impl Clone for TranscriptProvenance {
    fn clone(&self) -> (r: Self)
        ensures
            spec_same_provenance(r, *self),
    {
        match self {
            TranscriptProvenance::AbsentGuestTranscript { reason } => {
                TranscriptProvenance::AbsentGuestTranscript { reason: reason.clone() }
            },
            TranscriptProvenance::HostProcessOrFixture { label } => {
                TranscriptProvenance::HostProcessOrFixture { label: label.clone() }
            },
            TranscriptProvenance::GuestLive { session_id } => {
                TranscriptProvenance::GuestLive { session_id: session_id.clone() }
            },
        }
    }
}

impl TranscriptProvenance {
    pub open spec fn spec_may_promote(&self) -> bool {
        *self is GuestLive
    }

    pub open spec fn spec_code(&self) -> Seq<char> {
        match self {
            TranscriptProvenance::AbsentGuestTranscript { .. } => "absent-guest-transcript"@,
            TranscriptProvenance::HostProcessOrFixture { .. } => "host-process-or-fixture"@,
            TranscriptProvenance::GuestLive { .. } => "guest-live"@,
        }
    }

    pub fn may_promote_metal_verified(&self) -> (r: bool)
        ensures
            r == self.spec_may_promote(),
    {
        match self {
            TranscriptProvenance::GuestLive { .. } => true,
            _ => false,
        }
    }

    pub fn code(&self) -> (r: &'static str)
        ensures
            r@ == self.spec_code(),
    {
        match self {
            TranscriptProvenance::AbsentGuestTranscript { .. } => "absent-guest-transcript",
            TranscriptProvenance::HostProcessOrFixture { .. } => "host-process-or-fixture",
            TranscriptProvenance::GuestLive { .. } => "guest-live",
        }
    }
}

/// One D10 gate evaluation row.
#[derive(Debug, Clone, PartialEq, Eq)]
pub struct D10GateChecklistRow {
    pub gate: MetalAcceptanceGate,
    pub met: bool,
    pub evidence_token: String,
    pub fail_reason: Option<String>,
}

/// Structured report from one D10 evaluation run.
#[derive(Debug, Clone, PartialEq, Eq)]
pub struct MetalD10EvaluationReport {
    pub marker: String,
    /// The evaluator ran (always true on return).
    pub evaluator_executed: bool,
    pub provenance: TranscriptProvenance,
    /// Per-gate checklist: enumeration, resources, queue, fences.
    pub gate_checklist: Vec<D10GateChecklistRow>,
    pub acceptance: MetalAcceptanceReport,
    /// True only for a live guest transcript holding all four D10 tokens.
    pub metal_verified: bool,
    /// The four checklist rows are all met (may still be a fixture).
    pub d10_complete_in_transcript: bool,
    pub display_path_freeze_green: bool,
    /// Evaluation continued despite missing guest Metal.
    pub continued_without_guest_metal: bool,
    /// Stable fail codes when acceptance is unmet.
    pub fail_codes: Vec<String>,
    pub notes: String,
}

/// Every row of `rows` is unmet.
pub open spec fn spec_all_unmet(rows: Seq<D10GateChecklistRow>) -> bool {
    forall|i: int| 0 <= i < rows.len() ==> !(#[trigger] rows[i]).met
}

impl MetalD10EvaluationReport {
    pub open spec fn spec_honest_fail(&self) -> bool {
        &&& self.evaluator_executed
        &&& !self.metal_verified
        &&& !self.acceptance.metal_verified
        &&& !self.acceptance.spec_d10_complete()
        &&& self.continued_without_guest_metal
        &&& spec_all_unmet(self.gate_checklist@)
        &&& self.fail_codes@.len() > 0
    }

    /// Contract helper: the absent-guest path must not claim Metal.
    pub fn asserts_honest_fail_without_guest(&self) -> (r: bool)
        ensures
            r == self.spec_honest_fail(),
    {
        if !(self.evaluator_executed && !self.metal_verified && !self.acceptance.metal_verified
            && !self.acceptance.d10_complete() && self.continued_without_guest_metal) {
            return false;
        }
        let mut i: usize = 0;
        while i < self.gate_checklist.len()
            invariant
                i <= self.gate_checklist@.len(),
                forall|k: int| 0 <= k < i ==> !(#[trigger] self.gate_checklist@[k]).met,
            decreases self.gate_checklist@.len() - i,
        {
            if self.gate_checklist[i].met {
                return false;
            }
            i = i + 1;
        }
        self.fail_codes.len() > 0
    }
}

/// Input transcript: one guest log body evaluated as a whole.
#[derive(Debug, Clone, PartialEq, Eq)]
pub struct GuestMetalTranscript {
    pub provenance: TranscriptProvenance,
    pub body: String,
}

impl GuestMetalTranscript {
    /// Default lab transcript: no guest Metal transcript attached.
    pub fn absent_on_host() -> (r: Self)
        ensures
            r.provenance matches TranscriptProvenance::AbsentGuestTranscript { reason } && reason@
                == "no guest Metal transcript attached; host nextcore-gpu evaluator only"@,
            r.body@ == Seq::<char>::empty(),
    {
        GuestMetalTranscript {
            provenance: TranscriptProvenance::AbsentGuestTranscript {
                reason: String::from_str(
                    "no guest Metal transcript attached; host nextcore-gpu evaluator only",
                ),
            },
            body: String::new(),
        }
    }

    /// Labeled fixture or host-process input (never promotes `metal_verified`).
    pub fn fixture(label: &str, body: &str) -> (r: Self)
        ensures
            r.provenance matches TranscriptProvenance::HostProcessOrFixture { label: l } && l@
                == label@,
            r.body@ == body@,
    {
        GuestMetalTranscript {
            provenance: TranscriptProvenance::HostProcessOrFixture { label: String::from_str(label) },
            body: String::from_str(body),
        }
    }

    /// Live guest session transcript (the only kind that may set `metal_verified`).
    pub fn guest_live(session_id: &str, body: &str) -> (r: Self)
        ensures
            r.provenance matches TranscriptProvenance::GuestLive { session_id: s } && s@
                == session_id@,
            r.body@ == body@,
    {
        GuestMetalTranscript {
            provenance: TranscriptProvenance::GuestLive { session_id: String::from_str(session_id) },
            body: String::from_str(body),
        }
    }
}

/// `token` appears in `body`: its UTF-8 bytes occur in the body's bytes.
pub open spec fn spec_has_token(body: Seq<char>, token: Seq<char>) -> bool {
    spec_contains_bytes(vstd::utf8::encode_utf8(body), vstd::utf8::encode_utf8(token))
}

/// No token with at least one character appears in an empty body.
pub proof fn lemma_token_absent_from_empty(token: Seq<char>)
    requires
        token.len() > 0,
    ensures
        !spec_has_token(Seq::empty(), token),
{
    vstd::utf8::encode_utf8_decode_utf8(token);
    vstd::utf8::encode_utf8_decode_utf8(Seq::<char>::empty());
    if vstd::utf8::encode_utf8(token).len() == 0 {
        assert(vstd::utf8::encode_utf8(token) =~= vstd::utf8::encode_utf8(Seq::<char>::empty()));
    }
}

/// Whether `token` appears in `body`.
fn has_token(body: &str, token: &str) -> (r: bool)
    ensures
        r == spec_has_token(body@, token@),
{
    contains_bytes(body.as_bytes(), token.as_bytes())
}

/// The D10 gate rows are met as `mets` says, in gate order.
pub open spec fn spec_gates() -> Seq<MetalAcceptanceGate> {
    seq![
        MetalAcceptanceGate::DeviceEnumeration,
        MetalAcceptanceGate::ResourceCreation,
        MetalAcceptanceGate::CommandQueueExecution,
        MetalAcceptanceGate::FenceSynchronization,
    ]
}

pub open spec fn spec_tokens() -> Seq<Seq<char>> {
    seq![D10_EVIDENCE_ENUMERATE@, D10_EVIDENCE_RESOURCE@, D10_EVIDENCE_QUEUE@, D10_EVIDENCE_FENCE@]
}

pub open spec fn spec_missing_reasons() -> Seq<Seq<char>> {
    seq![
        "device enumeration evidence token missing from transcript"@,
        "resource creation evidence token missing from transcript"@,
        "command queue execution evidence token missing from transcript"@,
        "fence synchronization evidence token missing from transcript"@,
    ]
}

pub open spec fn spec_missing_codes() -> Seq<Seq<char>> {
    seq![
        "d10-enumerate-missing"@,
        "d10-resource-missing"@,
        "d10-queue-missing"@,
        "d10-fence-missing"@,
    ]
}

/// Row `i` of a checklist whose gates are met as `mets` says.
pub open spec fn spec_row_ok(row: D10GateChecklistRow, i: int, met: bool) -> bool {
    &&& row.gate == spec_gates()[i]
    &&& row.met == met
    &&& row.evidence_token@ == spec_tokens()[i]
    &&& (if met {
        row.fail_reason is None
    } else {
        row.fail_reason matches Some(m) && m@ == spec_missing_reasons()[i]
    })
}

/// The codes with `extra` appended when `cond` holds.
pub open spec fn spec_push_if(codes: Seq<Seq<char>>, cond: bool, extra: Seq<char>) -> Seq<Seq<char>> {
    if cond {
        codes.push(extra)
    } else {
        codes
    }
}

/// The fail codes of an evaluation.
pub open spec fn spec_fail_codes(prov: TranscriptProvenance, mets: Seq<bool>) -> Seq<Seq<char>> {
    let promote = prov.spec_may_promote();
    let complete = mets[0] && mets[1] && mets[2] && mets[3];
    let c0 = spec_push_if(Seq::empty(), !promote, prov.spec_code());
    let c1 = spec_push_if(c0, !mets[0], spec_missing_codes()[0]);
    let c2 = spec_push_if(c1, !mets[1], spec_missing_codes()[1]);
    let c3 = spec_push_if(c2, !mets[2], spec_missing_codes()[2]);
    let c4 = spec_push_if(c3, !mets[3], spec_missing_codes()[3]);
    let c5 = spec_push_if(c4, complete && !promote, "fixture-or-non-guest-cannot-verify"@);
    if complete && promote {
        Seq::empty()
    } else if c5.len() == 0 {
        seq!["acceptance-unmet"@]
    } else {
        c5
    }
}

/// The notes of an evaluation.
pub open spec fn spec_notes(prov: TranscriptProvenance, complete: bool) -> Seq<char> {
    if complete && prov.spec_may_promote() {
        "D10 complete in live guest transcript; metal_verified=true"@
    } else if complete {
        "transcript contains all D10 tokens but provenance="@ + prov.spec_code()
            + " cannot promote metal_verified; evaluator continued"@
    } else {
        "D10 gates unmet (provenance="@ + prov.spec_code()
            + "); evaluator executed and continued without guest Metal; metal_verified=false"@
    }
}

/// The views of a list of strings.
pub open spec fn spec_texts(v: Seq<String>) -> Seq<Seq<char>> {
    v.map_values(|s: String| s@)
}

fn push_text(v: &mut Vec<String>, s: &str)
    ensures
        spec_texts(final(v)@) == spec_texts(old(v)@).push(s@),
{
    v.push(String::from_str(s));
    assert(spec_texts(v@) =~= spec_texts(old(v)@).push(s@));
}

fn checklist_row(gate: MetalAcceptanceGate, met: bool, token: &str, missing_reason: &str) -> (r: D10GateChecklistRow)
    ensures
        r.gate == gate,
        r.met == met,
        r.evidence_token@ == token@,
        met ==> r.fail_reason is None,
        !met ==> (r.fail_reason matches Some(m) && m@ == missing_reason@),
{
    D10GateChecklistRow {
        gate,
        met,
        evidence_token: String::from_str(token),
        fail_reason: if met {
            None
        } else {
            Some(String::from_str(missing_reason))
        },
    }
}

/// D10 gate evaluator over the honest Metal surfaces.
#[derive(Debug, Clone)]
pub struct MetalD10Gates {
    abi: MetalPublicAbi,
}

impl MetalD10Gates {
    pub closed spec fn spec_abi(&self) -> MetalPublicAbi {
        self.abi
    }

    pub fn current() -> (r: Self)
        ensures
            r.spec_abi().spec_acceptance() == MetalAcceptanceReport::spec_unmet(),
            r.spec_abi().spec_capabilities().spec_bits() == 0,
    {
        MetalD10Gates { abi: MetalPublicAbi::current() }
    }

    pub fn abi(&self) -> (r: &MetalPublicAbi)
        ensures
            *r == self.spec_abi(),
    {
        &self.abi
    }

    pub fn acceptance(&self) -> (r: &MetalAcceptanceReport)
        ensures
            *r == self.spec_abi().spec_acceptance(),
    {
        self.abi.acceptance()
    }

    pub fn display_path_freeze(&self) -> (r: DisplayPathFreeze)
        ensures
            r == DisplayPathFreeze::spec_locked(),
    {
        self.abi.display_path_freeze()
    }

    pub fn transport(&self) -> (r: MetalTransport)
        ensures
            r.spec_acceptance() == self.spec_abi().spec_acceptance(),
    {
        MetalTransport::from_abi(&self.abi)
    }

    pub fn guest_probe(&self) -> (r: GuestMetalProbe)
        ensures
            r.spec_abi().spec_acceptance() == MetalAcceptanceReport::spec_unmet(),
            r.spec_abi().spec_capabilities().spec_bits() == 0,
    {
        GuestMetalProbe::current()
    }

    /// Evaluates the default absent-guest transcript and continues: every
    /// gate unmet, `metal_verified` false.
    pub fn evaluate_absent_guest_and_continue(&self) -> (r: MetalD10EvaluationReport)
        ensures
            r.spec_honest_fail(),
            r.marker@ == M6_D10_GATES_DOC_MARKER@,
            r.display_path_freeze_green,
            !r.d10_complete_in_transcript,
            r.gate_checklist@.len() == 4,
            r.provenance is AbsentGuestTranscript,
            spec_texts(r.fail_codes@)[0] == "absent-guest-transcript"@,
            spec_texts(r.fail_codes@) == spec_fail_codes(r.provenance, seq![false, false, false, false]),
            r.notes@ == spec_notes(r.provenance, false),
            forall|i: int| 0 <= i < 4 ==> spec_row_ok(#[trigger] r.gate_checklist@[i], i, false),
            r.acceptance == MetalAcceptanceReport::spec_unmet(),
            r.continued_without_guest_metal,
    {
        let t = GuestMetalTranscript::absent_on_host();
        proof {
            reveal_strlit("NCMETAL_D10:enumerate:ok");
            reveal_strlit("NCMETAL_D10:resource:ok");
            reveal_strlit("NCMETAL_D10:queue:ok");
            reveal_strlit("NCMETAL_D10:fence:ok");
            lemma_token_absent_from_empty(D10_EVIDENCE_ENUMERATE@);
            lemma_token_absent_from_empty(D10_EVIDENCE_RESOURCE@);
            lemma_token_absent_from_empty(D10_EVIDENCE_QUEUE@);
            lemma_token_absent_from_empty(D10_EVIDENCE_FENCE@);
            assert(t.body@ =~= Seq::<char>::empty());
        }
        let r = self.evaluate_transcript(&t);
        proof {
            assert(!r.gate_checklist@[0].met);
            assert(spec_all_unmet(r.gate_checklist@));
        }
        r
    }

    /// Evaluates one transcript for all four D10 gates. A gate is met when
    /// its evidence token appears in the body; `metal_verified` holds exactly
    /// when all four are met and the transcript is a live guest session.
    pub fn evaluate_transcript(&self, transcript: &GuestMetalTranscript) -> (r: MetalD10EvaluationReport)
        ensures
            ({
                let body = transcript.body@;
                let mets = seq![
                    spec_has_token(body, D10_EVIDENCE_ENUMERATE@),
                    spec_has_token(body, D10_EVIDENCE_RESOURCE@),
                    spec_has_token(body, D10_EVIDENCE_QUEUE@),
                    spec_has_token(body, D10_EVIDENCE_FENCE@),
                ];
                let complete = mets[0] && mets[1] && mets[2] && mets[3];
                let verified = complete && transcript.provenance.spec_may_promote();
                &&& r.marker@ == M6_D10_GATES_DOC_MARKER@
                &&& r.evaluator_executed
                &&& spec_same_provenance(r.provenance, transcript.provenance)
                &&& r.gate_checklist@.len() == 4
                &&& forall|i: int| 0 <= i < 4 ==> spec_row_ok(#[trigger] r.gate_checklist@[i], i, mets[i])
                &&& r.d10_complete_in_transcript == complete
                &&& r.metal_verified == verified
                &&& r.acceptance == (if verified {
                    MetalAcceptanceReport {
                        device_enumerated: true,
                        resources_created: true,
                        command_queue_executed: true,
                        fences_synchronized: true,
                        metal_verified: true,
                    }
                } else {
                    MetalAcceptanceReport::spec_unmet()
                })
                &&& r.continued_without_guest_metal == !verified
                &&& r.display_path_freeze_green
                &&& spec_texts(r.fail_codes@) == spec_fail_codes(transcript.provenance, mets)
                &&& r.notes@ == spec_notes(transcript.provenance, complete)
            }),
    {
        let body = transcript.body.as_str();
        let enum_met = has_token(body, D10_EVIDENCE_ENUMERATE);
        let resource_met = has_token(body, D10_EVIDENCE_RESOURCE);
        let queue_met = has_token(body, D10_EVIDENCE_QUEUE);
        let fence_met = has_token(body, D10_EVIDENCE_FENCE);
        let ghost mets = seq![enum_met, resource_met, queue_met, fence_met];
        let mut gate_checklist: Vec<D10GateChecklistRow> = Vec::new();
        gate_checklist.push(
            checklist_row(
                MetalAcceptanceGate::DeviceEnumeration,
                enum_met,
                D10_EVIDENCE_ENUMERATE,
                "device enumeration evidence token missing from transcript",
            ),
        );
        gate_checklist.push(
            checklist_row(
                MetalAcceptanceGate::ResourceCreation,
                resource_met,
                D10_EVIDENCE_RESOURCE,
                "resource creation evidence token missing from transcript",
            ),
        );
        gate_checklist.push(
            checklist_row(
                MetalAcceptanceGate::CommandQueueExecution,
                queue_met,
                D10_EVIDENCE_QUEUE,
                "command queue execution evidence token missing from transcript",
            ),
        );
        gate_checklist.push(
            checklist_row(
                MetalAcceptanceGate::FenceSynchronization,
                fence_met,
                D10_EVIDENCE_FENCE,
                "fence synchronization evidence token missing from transcript",
            ),
        );
        let d10_complete_in_transcript = enum_met && resource_met && queue_met && fence_met;
        let may_promote = transcript.provenance.may_promote_metal_verified();
        let metal_verified = d10_complete_in_transcript && may_promote;
        let acceptance = if metal_verified {
            MetalAcceptanceReport {
                device_enumerated: true,
                resources_created: true,
                command_queue_executed: true,
                fences_synchronized: true,
                metal_verified: true,
            }
        } else {
            MetalAcceptanceReport::unmet()
        };
        let mut fail_codes: Vec<String> = Vec::new();
        let ghost prov = transcript.provenance;
        assert(spec_texts(fail_codes@) =~= Seq::<Seq<char>>::empty());
        if !may_promote {
            push_text(&mut fail_codes, transcript.provenance.code());
        }
        let ghost c0 = spec_texts(fail_codes@);
        if !enum_met {
            push_text(&mut fail_codes, "d10-enumerate-missing");
        }
        let ghost c1 = spec_texts(fail_codes@);
        if !resource_met {
            push_text(&mut fail_codes, "d10-resource-missing");
        }
        let ghost c2 = spec_texts(fail_codes@);
        if !queue_met {
            push_text(&mut fail_codes, "d10-queue-missing");
        }
        let ghost c3 = spec_texts(fail_codes@);
        if !fence_met {
            push_text(&mut fail_codes, "d10-fence-missing");
        }
        let ghost c4 = spec_texts(fail_codes@);
        if d10_complete_in_transcript && !may_promote {
            push_text(&mut fail_codes, "fixture-or-non-guest-cannot-verify");
        }
        let ghost c5 = spec_texts(fail_codes@);
        proof {
            assert(c0 == spec_push_if(Seq::empty(), !may_promote, prov.spec_code()));
            assert(c5 == spec_push_if(
                spec_push_if(
                    spec_push_if(
                        spec_push_if(spec_push_if(c0, !mets[0], spec_missing_codes()[0]), !mets[1], spec_missing_codes()[1]),
                        !mets[2],
                        spec_missing_codes()[2],
                    ),
                    !mets[3],
                    spec_missing_codes()[3],
                ),
                d10_complete_in_transcript && !may_promote,
                "fixture-or-non-guest-cannot-verify"@,
            ));
        }
        if metal_verified {
            fail_codes = Vec::new();
            assert(spec_texts(fail_codes@) =~= Seq::<Seq<char>>::empty());
        } else if fail_codes.len() == 0 {
            push_text(&mut fail_codes, "acceptance-unmet");
        }
        let continued_without_guest_metal = !metal_verified;
        let freeze = freeze_under_metal_track().with_metal_acceptance(self.acceptance());
        let notes = if metal_verified {
            String::from_str("D10 complete in live guest transcript; metal_verified=true")
        } else if d10_complete_in_transcript && !may_promote {
            let mut n = String::from_str("transcript contains all D10 tokens but provenance=");
            n.append(transcript.provenance.code());
            n.append(" cannot promote metal_verified; evaluator continued");
            n
        } else {
            let mut n = String::from_str("D10 gates unmet (provenance=");
            n.append(transcript.provenance.code());
            n.append("); evaluator executed and continued without guest Metal; metal_verified=false");
            n
        };
        MetalD10EvaluationReport {
            marker: String::from_str(M6_D10_GATES_DOC_MARKER),
            evaluator_executed: true,
            provenance: transcript.provenance.clone(),
            gate_checklist,
            acceptance,
            metal_verified,
            d10_complete_in_transcript,
            display_path_freeze_green: freeze.matches_m1_lock(),
            continued_without_guest_metal,
            fail_codes,
            notes,
        }
    }
}

} // verus!
