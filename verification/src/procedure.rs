//! The cryptographic work of a round, taken apart into single operations of
//! the curve library and put in order. A procedure names the operation that
//! is due; the host performs it and hands back what it returned; the
//! procedure then names the next operation or is complete.

use crate::error::SignError;
use crate::request::{CryptoRequest, CryptoResult, RequestModel, ResultModel};
use vstd::prelude::*;

verus! {

/// One operation of the curve library. Every value is in the library's own
/// serialization.
#[derive(Debug, PartialEq, Eq)]
pub enum Operation {
    /// Create an ephemeral key for `message` under `keypair`, and commit to it.
    CreateEphemeralAndCommit { keypair: String, message: Vec<u8> },
    /// Check whether `opening` opens `commitment`.
    TestCommit { opening: String, commitment: String },
    /// Aggregate `public_keys`, given in order of peer index, for the signer
    /// at position `index`.
    AggregateKeys { public_keys: Vec<String>, index: usize },
    /// Combine the nonces that `openings` reveal.
    CombineNonces { openings: Vec<String> },
    /// Derive the challenge from the combined nonce, the aggregated key and
    /// the message.
    Challenge { nonce: String, aggregate_key: String, message: Vec<u8> },
    /// Sign partially.
    PartialSign {
        ephemeral: String,
        keypair: String,
        challenge: String,
        weight: String,
        nonce: String,
    },
    /// Combine partial signatures, given in order of peer index.
    CombineSignatures { signatures: Vec<String> },
    /// Verify `signature` on `message` under `aggregate_key`.
    Verify { signature: String, message: Vec<u8>, aggregate_key: String },
}

/// An operation as a mathematical value.
pub enum OperationModel {
    CreateEphemeralAndCommit { keypair: Seq<char>, message: Seq<u8> },
    TestCommit { opening: Seq<char>, commitment: Seq<char> },
    AggregateKeys { public_keys: Seq<Seq<char>>, index: nat },
    CombineNonces { openings: Seq<Seq<char>> },
    Challenge { nonce: Seq<char>, aggregate_key: Seq<char>, message: Seq<u8> },
    PartialSign {
        ephemeral: Seq<char>,
        keypair: Seq<char>,
        challenge: Seq<char>,
        weight: Seq<char>,
        nonce: Seq<char>,
    },
    CombineSignatures { signatures: Seq<Seq<char>> },
    Verify { signature: Seq<char>, message: Seq<u8>, aggregate_key: Seq<char> },
}

impl View for Operation {
    type V = OperationModel;

    open spec fn view(&self) -> OperationModel {
        match self {
            Operation::CreateEphemeralAndCommit { keypair, message } => {
                OperationModel::CreateEphemeralAndCommit { keypair: keypair@, message: message@ }
            },
            Operation::TestCommit { opening, commitment } => OperationModel::TestCommit {
                opening: opening@,
                commitment: commitment@,
            },
            Operation::AggregateKeys { public_keys, index } => OperationModel::AggregateKeys {
                public_keys: public_keys.deep_view(),
                index: *index as nat,
            },
            Operation::CombineNonces { openings } => OperationModel::CombineNonces {
                openings: openings.deep_view(),
            },
            Operation::Challenge { nonce, aggregate_key, message } => OperationModel::Challenge {
                nonce: nonce@,
                aggregate_key: aggregate_key@,
                message: message@,
            },
            Operation::PartialSign { ephemeral, keypair, challenge, weight, nonce } => {
                OperationModel::PartialSign {
                    ephemeral: ephemeral@,
                    keypair: keypair@,
                    challenge: challenge@,
                    weight: weight@,
                    nonce: nonce@,
                }
            },
            Operation::CombineSignatures { signatures } => OperationModel::CombineSignatures {
                signatures: signatures.deep_view(),
            },
            Operation::Verify { signature, message, aggregate_key } => OperationModel::Verify {
                signature: signature@,
                message: message@,
                aggregate_key: aggregate_key@,
            },
        }
    }
}

/// What one operation returned.
#[derive(Debug, PartialEq, Eq)]
pub enum Outcome {
    /// Of `CreateEphemeralAndCommit`: the key, the commitment and its opening.
    Committed { ephemeral: String, commitment: String, opening: String },
    /// Of `TestCommit` and `Verify`: whether the test passed.
    Flag(bool),
    /// Of `AggregateKeys`: the aggregated key and this signer's weight.
    Aggregated { key: String, weight: String },
    /// Of the other operations: the value computed.
    Value(String),
}

/// An outcome as a mathematical value.
pub enum OutcomeModel {
    Committed { ephemeral: Seq<char>, commitment: Seq<char>, opening: Seq<char> },
    Flag(bool),
    Aggregated { key: Seq<char>, weight: Seq<char> },
    Value(Seq<char>),
}

impl View for Outcome {
    type V = OutcomeModel;

    open spec fn view(&self) -> OutcomeModel {
        match self {
            Outcome::Committed { ephemeral, commitment, opening } => OutcomeModel::Committed {
                ephemeral: ephemeral@,
                commitment: commitment@,
                opening: opening@,
            },
            Outcome::Flag(flag) => OutcomeModel::Flag(*flag),
            Outcome::Aggregated { key, weight } => OutcomeModel::Aggregated {
                key: key@,
                weight: weight@,
            },
            Outcome::Value(value) => OutcomeModel::Value(value@),
        }
    }
}

/// What the signing at the end of round 2 works on.
#[derive(Debug, PartialEq, Eq)]
pub struct SignInputs {
    pub keypair: String,
    pub message: Vec<u8>,
    pub ephemeral: String,
    pub index: usize,
    pub public_keys: Vec<String>,
    pub commitments: Vec<String>,
    pub openings: Vec<String>,
}

/// The inputs of a signing as a mathematical value.
pub struct SignInputsModel {
    pub keypair: Seq<char>,
    pub message: Seq<u8>,
    pub ephemeral: Seq<char>,
    pub index: nat,
    pub public_keys: Seq<Seq<char>>,
    pub commitments: Seq<Seq<char>>,
    pub openings: Seq<Seq<char>>,
}

impl View for SignInputs {
    type V = SignInputsModel;

    open spec fn view(&self) -> SignInputsModel {
        SignInputsModel {
            keypair: self.keypair@,
            message: self.message@,
            ephemeral: self.ephemeral@,
            index: self.index as nat,
            public_keys: self.public_keys.deep_view(),
            commitments: self.commitments.deep_view(),
            openings: self.openings.deep_view(),
        }
    }
}

/// The stage that a piece of work has reached, with what the stages to
/// come need.
#[derive(Debug, PartialEq, Eq)]
enum Stage {
    /// Round 0 ends: the ephemeral key is to be made.
    Committing { keypair: String, message: Vec<u8> },
    /// Round 2 ends: the opening of peer `checked + 1` is to be tested, those
    /// before it have passed.
    Checking { inputs: SignInputs, checked: usize },
    /// All openings have passed; the keys are to be aggregated.
    Aggregating { inputs: SignInputs },
    /// The nonces are to be combined.
    Combining { inputs: SignInputs, key: String, weight: String },
    /// The challenge is to be derived.
    Challenging { inputs: SignInputs, key: String, weight: String, nonce: String },
    /// The partial signature is to be made.
    Signing { inputs: SignInputs, weight: String, nonce: String, challenge: String },
    /// The session ends: the partial signatures are to be combined.
    Gathering { message: Vec<u8>, index: usize, public_keys: Vec<String>, signatures: Vec<String> },
    /// The keys are to be aggregated for the verification.
    Keying { message: Vec<u8>, index: usize, public_keys: Vec<String>, combined: String },
    /// The combined signature is to be verified.
    Verifying { message: Vec<u8>, combined: String, key: String },
}

/// A procedure as a mathematical value.
pub enum ProcedureModel {
    Committing { keypair: Seq<char>, message: Seq<u8> },
    Checking { inputs: SignInputsModel, checked: nat },
    Aggregating { inputs: SignInputsModel },
    Combining { inputs: SignInputsModel, key: Seq<char>, weight: Seq<char> },
    Challenging { inputs: SignInputsModel, key: Seq<char>, weight: Seq<char>, nonce: Seq<char> },
    Signing { inputs: SignInputsModel, weight: Seq<char>, nonce: Seq<char>, challenge: Seq<char> },
    Gathering {
        message: Seq<u8>,
        index: nat,
        public_keys: Seq<Seq<char>>,
        signatures: Seq<Seq<char>>,
    },
    Keying { message: Seq<u8>, index: nat, public_keys: Seq<Seq<char>>, combined: Seq<char> },
    Verifying { message: Seq<u8>, combined: Seq<char>, key: Seq<char> },
}

impl View for Stage {
    type V = ProcedureModel;

    closed spec fn view(&self) -> ProcedureModel {
        match self {
            Stage::Committing { keypair, message } => ProcedureModel::Committing {
                keypair: keypair@,
                message: message@,
            },
            Stage::Checking { inputs, checked } => ProcedureModel::Checking {
                inputs: inputs@,
                checked: *checked as nat,
            },
            Stage::Aggregating { inputs } => ProcedureModel::Aggregating { inputs: inputs@ },
            Stage::Combining { inputs, key, weight } => ProcedureModel::Combining {
                inputs: inputs@,
                key: key@,
                weight: weight@,
            },
            Stage::Challenging { inputs, key, weight, nonce } => ProcedureModel::Challenging {
                inputs: inputs@,
                key: key@,
                weight: weight@,
                nonce: nonce@,
            },
            Stage::Signing { inputs, weight, nonce, challenge } => ProcedureModel::Signing {
                inputs: inputs@,
                weight: weight@,
                nonce: nonce@,
                challenge: challenge@,
            },
            Stage::Gathering { message, index, public_keys, signatures } => {
                ProcedureModel::Gathering {
                    message: message@,
                    index: *index as nat,
                    public_keys: public_keys.deep_view(),
                    signatures: signatures.deep_view(),
                }
            },
            Stage::Keying { message, index, public_keys, combined } => ProcedureModel::Keying {
                message: message@,
                index: *index as nat,
                public_keys: public_keys.deep_view(),
                combined: combined@,
            },
            Stage::Verifying { message, combined, key } => ProcedureModel::Verifying {
                message: message@,
                combined: combined@,
                key: key@,
            },
        }
    }
}

/// A piece of cryptographic work in progress.
#[derive(Debug, PartialEq, Eq)]
pub struct Procedure {
    stage: Stage,
}

impl View for Procedure {
    type V = ProcedureModel;

    closed spec fn view(&self) -> ProcedureModel {
        self.stage@
    }
}

/// How far an outcome brought a procedure.
#[derive(Debug, PartialEq, Eq)]
pub enum Progress {
    /// Another operation is due.
    Next(Procedure),
    /// The work is done, with this result.
    Complete(CryptoResult),
}

/// Progress as a mathematical value.
pub enum ProgressModel {
    Next(ProcedureModel),
    Complete(ResultModel),
}

impl View for Progress {
    type V = ProgressModel;

    open spec fn view(&self) -> ProgressModel {
        match self {
            Progress::Next(procedure) => ProgressModel::Next(procedure@),
            Progress::Complete(result) => ProgressModel::Complete(result@),
        }
    }
}

impl ProcedureModel {
    /// What holds of a procedure at every stage: an opening that is to be
    /// tested exists, and so does the commitment that belongs to it.
    pub open spec fn wf(self) -> bool {
        match self {
            ProcedureModel::Checking { inputs, checked } => checked < inputs.openings.len()
                && inputs.openings.len() == inputs.commitments.len(),
            _ => true,
        }
    }

    /// The procedure that does the work `request`. A request to sign whose
    /// openings and commitments are not of one number cannot be met: some
    /// opening has no commitment to match.
    pub open spec fn begun(request: RequestModel) -> Result<ProcedureModel, SignError> {
        match request {
            RequestModel::Commit { keypair, message } => Ok(
                ProcedureModel::Committing { keypair, message },
            ),
            RequestModel::Sign {
                keypair,
                message,
                ephemeral,
                index,
                public_keys,
                commitments,
                openings,
            } => {
                let inputs = SignInputsModel {
                    keypair,
                    message,
                    ephemeral,
                    index,
                    public_keys,
                    commitments,
                    openings,
                };
                if openings.len() != commitments.len() {
                    Err(SignError::CommitmentMismatch)
                } else if openings.len() == 0 {
                    Ok(ProcedureModel::Aggregating { inputs })
                } else {
                    Ok(ProcedureModel::Checking { inputs, checked: 0 })
                }
            },
            RequestModel::Verify { message, index, public_keys, signatures } => Ok(
                ProcedureModel::Gathering { message, index, public_keys, signatures },
            ),
        }
    }

    /// The operation that is due.
    pub open spec fn operation(self) -> OperationModel {
        match self {
            ProcedureModel::Committing { keypair, message } => {
                OperationModel::CreateEphemeralAndCommit { keypair, message }
            },
            ProcedureModel::Checking { inputs, checked } => OperationModel::TestCommit {
                opening: inputs.openings[checked as int],
                commitment: inputs.commitments[checked as int],
            },
            ProcedureModel::Aggregating { inputs } => OperationModel::AggregateKeys {
                public_keys: inputs.public_keys,
                index: inputs.index,
            },
            ProcedureModel::Combining { inputs, key, weight } => OperationModel::CombineNonces {
                openings: inputs.openings,
            },
            ProcedureModel::Challenging { inputs, key, weight, nonce } => OperationModel::Challenge {
                nonce,
                aggregate_key: key,
                message: inputs.message,
            },
            ProcedureModel::Signing { inputs, weight, nonce, challenge } => {
                OperationModel::PartialSign {
                    ephemeral: inputs.ephemeral,
                    keypair: inputs.keypair,
                    challenge,
                    weight,
                    nonce,
                }
            },
            ProcedureModel::Gathering { message, index, public_keys, signatures } => {
                OperationModel::CombineSignatures { signatures }
            },
            ProcedureModel::Keying { message, index, public_keys, combined } => {
                OperationModel::AggregateKeys { public_keys, index }
            },
            ProcedureModel::Verifying { message, combined, key } => OperationModel::Verify {
                signature: combined,
                message,
                aggregate_key: key,
            },
        }
    }

    /// The procedure after the operation that was due returned `outcome`.
    /// An opening that does not match ends it with `CommitmentMismatch`; an
    /// outcome of another operation than the one due, with `NotRequested`.
    pub open spec fn advanced(self, outcome: OutcomeModel) -> Result<ProgressModel, SignError> {
        match (self, outcome) {
            (
                ProcedureModel::Committing { keypair, message },
                OutcomeModel::Committed { ephemeral, commitment, opening },
            ) => Ok(
                ProgressModel::Complete(ResultModel::Committed { ephemeral, commitment, opening }),
            ),
            (ProcedureModel::Checking { inputs, checked }, OutcomeModel::Flag(passed)) => {
                if !passed {
                    Err(SignError::CommitmentMismatch)
                } else if checked + 1 < inputs.openings.len() {
                    Ok(
                        ProgressModel::Next(
                            ProcedureModel::Checking { inputs, checked: checked + 1 },
                        ),
                    )
                } else {
                    Ok(ProgressModel::Next(ProcedureModel::Aggregating { inputs }))
                }
            },
            (
                ProcedureModel::Aggregating { inputs },
                OutcomeModel::Aggregated { key, weight },
            ) => Ok(ProgressModel::Next(ProcedureModel::Combining { inputs, key, weight })),
            (ProcedureModel::Combining { inputs, key, weight }, OutcomeModel::Value(nonce)) => Ok(
                ProgressModel::Next(ProcedureModel::Challenging { inputs, key, weight, nonce }),
            ),
            (
                ProcedureModel::Challenging { inputs, key, weight, nonce },
                OutcomeModel::Value(challenge),
            ) => Ok(ProgressModel::Next(ProcedureModel::Signing { inputs, weight, nonce, challenge })),
            (
                ProcedureModel::Signing { inputs, weight, nonce, challenge },
                OutcomeModel::Value(signature),
            ) => Ok(
                ProgressModel::Complete(
                    ResultModel::Signed {
                        openings_match: Seq::new(inputs.openings.len(), |j: int| true),
                        signature,
                    },
                ),
            ),
            (
                ProcedureModel::Gathering { message, index, public_keys, signatures },
                OutcomeModel::Value(combined),
            ) => Ok(
                ProgressModel::Next(ProcedureModel::Keying { message, index, public_keys, combined }),
            ),
            (
                ProcedureModel::Keying { message, index, public_keys, combined },
                OutcomeModel::Aggregated { key, weight },
            ) => Ok(ProgressModel::Next(ProcedureModel::Verifying { message, combined, key })),
            (ProcedureModel::Verifying { message, combined, key }, OutcomeModel::Flag(valid)) => Ok(
                ProgressModel::Complete(ResultModel::Verified { valid }),
            ),
            _ => Err(SignError::NotRequested),
        }
    }

    /// The public keys that the work aggregates and the position of this
    /// signer among them; none where the work aggregates no keys or has no
    /// more use for them.
    pub open spec fn signing_keys(self) -> Option<(Seq<Seq<char>>, nat)> {
        match self {
            ProcedureModel::Committing { .. } => None,
            ProcedureModel::Checking { inputs, .. } => Some((inputs.public_keys, inputs.index)),
            ProcedureModel::Aggregating { inputs } => Some((inputs.public_keys, inputs.index)),
            ProcedureModel::Combining { inputs, .. } => Some((inputs.public_keys, inputs.index)),
            ProcedureModel::Challenging { inputs, .. } => Some((inputs.public_keys, inputs.index)),
            ProcedureModel::Signing { inputs, .. } => Some((inputs.public_keys, inputs.index)),
            ProcedureModel::Gathering { public_keys, index, .. } => Some((public_keys, index)),
            ProcedureModel::Keying { public_keys, index, .. } => Some((public_keys, index)),
            ProcedureModel::Verifying { .. } => None,
        }
    }

    /// The aggregated key that the work goes on with, once it has one.
    pub open spec fn aggregated_key(self) -> Option<Seq<char>> {
        match self {
            ProcedureModel::Combining { key, .. } => Some(key),
            ProcedureModel::Challenging { key, .. } => Some(key),
            ProcedureModel::Verifying { key, .. } => Some(key),
            _ => None,
        }
    }

    /// The procedure after an aggregation that is due was answered by
    /// `aggregate`; none where no aggregation is due.
    pub open spec fn answered(
        self,
        aggregate: spec_fn(Seq<Seq<char>>, nat) -> (Seq<char>, Seq<char>),
    ) -> Option<ProcedureModel> {
        match self.operation() {
            OperationModel::AggregateKeys { public_keys, index } => {
                let (key, weight) = aggregate(public_keys, index);
                match self.advanced(OutcomeModel::Aggregated { key, weight }) {
                    Ok(ProgressModel::Next(next)) => Some(next),
                    _ => None,
                }
            },
            _ => None,
        }
    }

    /// The number of operations that are still due, this one included, if
    /// every one of them succeeds.
    pub open spec fn remaining(self) -> nat {
        match self {
            ProcedureModel::Committing { .. } => 1,
            ProcedureModel::Checking { inputs, checked } => (inputs.openings.len() - checked
                + 4) as nat,
            ProcedureModel::Aggregating { .. } => 4,
            ProcedureModel::Combining { .. } => 3,
            ProcedureModel::Challenging { .. } => 2,
            ProcedureModel::Signing { .. } => 1,
            ProcedureModel::Gathering { .. } => 3,
            ProcedureModel::Keying { .. } => 2,
            ProcedureModel::Verifying { .. } => 1,
        }
    }
}

/// A procedure stays well-formed, and each outcome that it accepts brings
/// it one operation closer to its end: it is complete exactly when the last
/// operation has returned.
pub proof fn lemma_procedure_advances(procedure: ProcedureModel, outcome: OutcomeModel)
    requires
        procedure.wf(),
        procedure.advanced(outcome) is Ok,
    ensures
        match procedure.advanced(outcome).unwrap() {
            ProgressModel::Next(next) => next.wf() && next.remaining() + 1
                == procedure.remaining(),
            ProgressModel::Complete(result) => procedure.remaining() == 1,
        },
{
}

/// A procedure that has begun is well-formed; a signing begins with one
/// test for each opening and four operations after them.
pub proof fn lemma_begun_wf(request: RequestModel)
    requires
        ProcedureModel::begun(request) is Ok,
    ensures
        ProcedureModel::begun(request).unwrap().wf(),
        ProcedureModel::begun(request).unwrap().remaining() == match request {
            RequestModel::Commit { .. } => 1,
            RequestModel::Sign { openings, .. } => openings.len() + 4,
            RequestModel::Verify { .. } => 3,
        },
{
}

/// The signing that a procedure completes with rests on a test of every
/// opening: its result says of all of them that they match, and no result
/// comes about while a test is due or has failed.
pub proof fn lemma_signed_after_all_tests(procedure: ProcedureModel, outcome: OutcomeModel)
    requires
        procedure.wf(),
        procedure.advanced(outcome) is Ok,
        procedure.advanced(outcome).unwrap() is Complete,
        procedure.advanced(outcome).unwrap()->Complete_0 is Signed,
    ensures
        procedure is Signing,
        procedure.advanced(outcome).unwrap()->Complete_0->openings_match.len()
            == procedure->Signing_inputs.openings.len(),
        forall|j: int|
            0 <= j < procedure->Signing_inputs.openings.len() ==> procedure.advanced(
                outcome,
            ).unwrap()->Complete_0->openings_match[j],
{
}

/// The keys that a procedure hands to the aggregation are those of its
/// request, in the order of the request: a procedure begins with them,
/// keeps them from stage to stage as long as it has use for them, and
/// names no other keys when the aggregation is due.
pub proof fn lemma_keys_stay(
    request: RequestModel,
    procedure: ProcedureModel,
    outcome: OutcomeModel,
)
    requires
        procedure.wf(),
    ensures
        ProcedureModel::begun(request) matches Ok(first) ==> first.signing_keys() == match request {
            RequestModel::Commit { .. } => None,
            RequestModel::Sign { public_keys, index, .. } => Some((public_keys, index)),
            RequestModel::Verify { public_keys, index, .. } => Some((public_keys, index)),
        },
        procedure.advanced(outcome) matches Ok(ProgressModel::Next(next)) ==> next.signing_keys()
            == procedure.signing_keys() || next is Verifying,
        procedure.operation() matches OperationModel::AggregateKeys { public_keys, index }
            ==> procedure.signing_keys() == Some((public_keys, index)),
{
}

/// Two peers that aggregate the same keys in the same order go on with the
/// same aggregated key, whatever their positions, provided that the
/// aggregation `aggregate` of the curve library gives every signer the same
/// key: the procedures hand the keys over as they are and keep the key that
/// comes back.
pub proof fn lemma_aggregate_agrees(
    one: ProcedureModel,
    other: ProcedureModel,
    aggregate: spec_fn(Seq<Seq<char>>, nat) -> (Seq<char>, Seq<char>),
)
    requires
        one is Aggregating && other is Aggregating || one is Keying && other is Keying,
        one.signing_keys().unwrap().0 == other.signing_keys().unwrap().0,
        forall|keys: Seq<Seq<char>>, i: nat, j: nat|
            (#[trigger] aggregate(keys, i)).0 == (#[trigger] aggregate(keys, j)).0,
    ensures
        one.answered(aggregate) is Some,
        other.answered(aggregate) is Some,
        one.answered(aggregate).unwrap().aggregated_key() is Some,
        one.answered(aggregate).unwrap().aggregated_key() == other.answered(
            aggregate,
        ).unwrap().aggregated_key(),
{
    let keys = one.signing_keys().unwrap().0;
    assert(aggregate(keys, one.signing_keys().unwrap().1).0 == aggregate(
        keys,
        other.signing_keys().unwrap().1,
    ).0);
}

/// A copy of `texts`.
fn copy_texts(texts: &Vec<String>) -> (copy: Vec<String>)
    ensures
        copy.deep_view() == texts.deep_view(),
{
    let mut copy: Vec<String> = Vec::new();
    let mut i: usize = 0;
    while i < texts.len()
        invariant
            i <= texts.len(),
            copy.len() == i,
            forall|j: int| 0 <= j < i ==> copy[j]@ == texts[j]@,
        decreases texts.len() - i,
    {
        copy.push(texts[i].clone());
        i += 1;
    }
    assert(copy.deep_view() =~= texts.deep_view());
    copy
}

/// A copy of `bytes`.
fn copy_bytes(bytes: &Vec<u8>) -> (copy: Vec<u8>)
    ensures
        copy@ == bytes@,
{
    let copy = bytes.clone();
    assert(copy@ =~= bytes@);
    copy
}

/// As many set flags as `count`.
fn all_set(count: usize) -> (flags: Vec<bool>)
    ensures
        flags@ == Seq::new(count as nat, |j: int| true),
{
    let mut flags: Vec<bool> = Vec::new();
    let mut i: usize = 0;
    while i < count
        invariant
            i <= count,
            flags.len() == i,
            forall|j: int| 0 <= j < i ==> flags[j],
        decreases count - i,
    {
        flags.push(true);
        i += 1;
    }
    assert(flags@ =~= Seq::new(count as nat, |j: int| true));
    flags
}

impl Procedure {
    /// Well-formedness: the opening that is to be tested exists.
    pub open spec fn wf(&self) -> bool {
        self@.wf()
    }

    /// Begins the work that `request` asks for.
    pub fn begin(request: CryptoRequest) -> (res: Result<Procedure, SignError>)
        ensures
            match ProcedureModel::begun(request@) {
                Ok(procedure) => res is Ok && res.unwrap()@ == procedure && res.unwrap().wf(),
                Err(e) => res == Err::<Procedure, SignError>(e),
            },
    {
        let stage = match request {
            CryptoRequest::Commit { keypair, message } => Stage::Committing { keypair, message },
            CryptoRequest::Sign {
                keypair,
                message,
                ephemeral,
                index,
                public_keys,
                commitments,
                openings,
            } => {
                let inputs = SignInputs {
                    keypair,
                    message,
                    ephemeral,
                    index,
                    public_keys,
                    commitments,
                    openings,
                };
                if inputs.openings.len() != inputs.commitments.len() {
                    return Err(SignError::CommitmentMismatch);
                } else if inputs.openings.len() == 0 {
                    Stage::Aggregating { inputs }
                } else {
                    Stage::Checking { inputs, checked: 0 }
                }
            },
            CryptoRequest::Verify { message, index, public_keys, signatures } => Stage::Gathering {
                message,
                index,
                public_keys,
                signatures,
            },
        };
        Ok(Procedure { stage })
    }

    /// The operation that is due.
    pub fn operation(&self) -> (operation: Operation)
        requires
            self.wf(),
        ensures
            operation@ == self@.operation(),
    {
        match &self.stage {
            Stage::Committing { keypair, message } => Operation::CreateEphemeralAndCommit {
                keypair: keypair.clone(),
                message: copy_bytes(message),
            },
            Stage::Checking { inputs, checked } => Operation::TestCommit {
                opening: inputs.openings[*checked].clone(),
                commitment: inputs.commitments[*checked].clone(),
            },
            Stage::Aggregating { inputs } => Operation::AggregateKeys {
                public_keys: copy_texts(&inputs.public_keys),
                index: inputs.index,
            },
            Stage::Combining { inputs, key, weight } => Operation::CombineNonces {
                openings: copy_texts(&inputs.openings),
            },
            Stage::Challenging { inputs, key, weight, nonce } => Operation::Challenge {
                nonce: nonce.clone(),
                aggregate_key: key.clone(),
                message: copy_bytes(&inputs.message),
            },
            Stage::Signing { inputs, weight, nonce, challenge } => Operation::PartialSign {
                ephemeral: inputs.ephemeral.clone(),
                keypair: inputs.keypair.clone(),
                challenge: challenge.clone(),
                weight: weight.clone(),
                nonce: nonce.clone(),
            },
            Stage::Gathering { message, index, public_keys, signatures } => {
                Operation::CombineSignatures { signatures: copy_texts(signatures) }
            },
            Stage::Keying { message, index, public_keys, combined } => Operation::AggregateKeys {
                public_keys: copy_texts(public_keys),
                index: *index,
            },
            Stage::Verifying { message, combined, key } => Operation::Verify {
                signature: combined.clone(),
                message: copy_bytes(message),
                aggregate_key: key.clone(),
            },
        }
    }

    /// Takes what the operation that was due returned.
    pub fn advance(self, outcome: Outcome) -> (res: Result<Progress, SignError>)
        requires
            self.wf(),
        ensures
            match self@.advanced(outcome@) {
                Ok(progress) => {
                    &&& res is Ok
                    &&& res.unwrap()@ == progress
                    &&& res.unwrap() matches Progress::Next(next) ==> next.wf()
                },
                Err(e) => res == Err::<Progress, SignError>(e),
            },
    {
        proof {
            if self@.advanced(outcome@) is Ok {
                lemma_procedure_advances(self@, outcome@);
            }
        }
        let stage = match (self.stage, outcome) {
            (
                Stage::Committing { keypair, message },
                Outcome::Committed { ephemeral, commitment, opening },
            ) => {
                return Ok(
                    Progress::Complete(CryptoResult::Committed { ephemeral, commitment, opening }),
                );
            },
            (Stage::Checking { inputs, checked }, Outcome::Flag(passed)) => {
                assert(checked < inputs.openings.len()) by {
                    assert(inputs@.openings.len() == inputs.openings.len());
                }
                if !passed {
                    return Err(SignError::CommitmentMismatch);
                } else if checked + 1 < inputs.openings.len() {
                    Stage::Checking { inputs, checked: checked + 1 }
                } else {
                    Stage::Aggregating { inputs }
                }
            },
            (Stage::Aggregating { inputs }, Outcome::Aggregated { key, weight }) => Stage::Combining {
                inputs,
                key,
                weight,
            },
            (Stage::Combining { inputs, key, weight }, Outcome::Value(nonce)) => Stage::Challenging {
                inputs,
                key,
                weight,
                nonce,
            },
            (Stage::Challenging { inputs, key, weight, nonce }, Outcome::Value(challenge)) => {
                Stage::Signing { inputs, weight, nonce, challenge }
            },
            (Stage::Signing { inputs, weight, nonce, challenge }, Outcome::Value(signature)) => {
                return Ok(
                    Progress::Complete(
                        CryptoResult::Signed {
                            openings_match: all_set(inputs.openings.len()),
                            signature,
                        },
                    ),
                );
            },
            (
                Stage::Gathering { message, index, public_keys, signatures },
                Outcome::Value(combined),
            ) => Stage::Keying { message, index, public_keys, combined },
            (
                Stage::Keying { message, index, public_keys, combined },
                Outcome::Aggregated { key, weight },
            ) => Stage::Verifying { message, combined, key },
            (Stage::Verifying { message, combined, key }, Outcome::Flag(valid)) => {
                return Ok(Progress::Complete(CryptoResult::Verified { valid }));
            },
            _ => {
                return Err(SignError::NotRequested);
            },
        };
        Ok(Progress::Next(Procedure { stage }))
    }
}

} // verus!
