//! The job that legacy clients are to work on now, kept up to date from the
//! templates and previous-block hashes that arrive from upstream.

use vstd::prelude::*;

use crate::coinbase::{coinbase_head, coinbase_tail, head_bytes, tail_bytes};
use crate::error::Error;
use crate::hex_codec::{hex_encode, hex_string};
use crate::new_template::NewTemplate;
use crate::utils::{
    legacy_string, word_string, Extranonce, HexU32Be, MerkleNode, PrevHash, EXTRANONCE_MAX_LEN,
};

verus! {

/// There is no job yet: a template or a previous-block hash is still to
/// come.
#[derive(Debug, Clone, Copy, PartialEq, Eq, Structural)]
pub struct NotReady;

/// What a legacy job notification says of a job, each part in the text form
/// that the legacy protocol sends.
#[derive(Debug, Clone, PartialEq)]
pub struct NotifyFields {
    /// The job's name: the identifier of its template.
    pub job_id: u64,
    /// The previous-block hash, as legacy text.
    pub prev_hash: String,
    /// The coinbase transaction up to the extranonce, in hex.
    pub coin_base1: String,
    /// The coinbase transaction after the extranonce, in hex.
    pub coin_base2: String,
    /// The nodes of the merkle path, deepest first, each in hex.
    pub merkle_branch: Vec<String>,
    /// The version of the block header, as eight hex digits.
    pub version: String,
    /// Whether earlier jobs are to be dropped.
    pub clean_jobs: bool,
}

impl NotifyFields {
    /// These are the fields of the job made of `template` and the hash
    /// `prev_hash`, for an extranonce of `extranonce_len` bytes.
    pub open spec fn describes(
        &self,
        template: NewTemplate,
        prev_hash: Seq<u8>,
        extranonce_len: nat,
        clean_jobs: bool,
    ) -> bool {
        &&& self.job_id == template.template_id
        &&& self.prev_hash@ == legacy_string(prev_hash)
        &&& self.coin_base1@ == hex_string(
            head_bytes(template.coinbase_tx_version, template.coinbase_prefix@, extranonce_len),
        )
        &&& self.coin_base2@ == hex_string(
            tail_bytes(
                template.coinbase_tx_input_sequence,
                template.coinbase_tx_outputs_count,
                template.coinbase_tx_outputs@,
                template.coinbase_tx_locktime,
            ),
        )
        &&& self.merkle_branch@.len() == template.merkle_path@.len()
        &&& forall|i: int|
            0 <= i < template.merkle_path@.len() ==> (#[trigger] self.merkle_branch@[i])@
                == hex_string(template.merkle_path@[i]@)
        &&& self.version@ == word_string(template.version)
        &&& self.clean_jobs == clean_jobs
    }
}

/// What the job-translation state holds, as plain values.
pub struct JobState {
    /// The template in force.
    pub active: Option<NewTemplate>,
    /// The template that waits for its previous-block hash to be announced.
    pub pending: Option<NewTemplate>,
    /// The previous-block hash in force.
    pub hash: Option<Seq<u8>>,
    /// The bytes that upstream puts in front of every extranonce.
    pub prefix: Seq<u8>,
    /// The number of bytes that the whole extranonce takes in the coinbase.
    pub extranonce_len: nat,
    /// Whether the job in force is the first on its previous-block hash, so
    /// that earlier jobs are to be dropped.
    pub clean: bool,
}

impl JobState {
    /// The extranonce begins with the prefix and takes 32 bytes at most.
    pub open spec fn well_formed(self) -> bool {
        self.prefix.len() <= self.extranonce_len <= EXTRANONCE_MAX_LEN
    }

    /// There is a job: a template and a previous-block hash are in force.
    pub open spec fn ready(self) -> bool {
        self.active is Some && self.hash is Some
    }

    /// A template waits, and its identifier is `template_id`.
    pub open spec fn waits_for(self, template_id: u64) -> bool {
        self.pending matches Some(waiting) && waiting.template_id == template_id
    }

    /// The state after `template` has been taken in. A template that is for
    /// a previous-block hash yet to come waits, in place of any that waited
    /// before. Any other is in force at once, in place of the template that
    /// was; its job is the first on the hash unless there was a job already.
    pub open spec fn with_template(self, template: NewTemplate) -> JobState {
        if template.future_template {
            JobState { pending: Some(template), ..self }
        } else {
            JobState { active: Some(template), clean: !self.ready(), ..self }
        }
    }

    /// The state after the previous-block hash `prev_hash` has been taken
    /// in, announced for the template `template_id`. The hash is in force,
    /// and the next job is the first on it. Where the template that waits
    /// has that identifier, it is in force too, and none waits.
    pub open spec fn with_prev_hash(self, prev_hash: Seq<u8>, template_id: u64) -> JobState {
        if self.waits_for(template_id) {
            JobState {
                active: self.pending,
                pending: None,
                hash: Some(prev_hash),
                clean: true,
                ..self
            }
        } else {
            JobState { hash: Some(prev_hash), clean: true, ..self }
        }
    }
}

/// The state that jobs are made from: the template in force, a template that
/// waits for its previous-block hash, the previous-block hash in force, and
/// the extranonce that the coinbase leaves room for.
#[derive(Debug)]
pub struct NextNotify {
    active: Option<NewTemplate>,
    pending: Option<NewTemplate>,
    prev_hash: Option<PrevHash>,
    extranonce_prefix: Extranonce,
    extranonce2_len: usize,
    clean_jobs: bool,
}

impl View for NextNotify {
    type V = JobState;

    closed spec fn view(&self) -> JobState {
        JobState {
            active: self.active,
            pending: self.pending,
            hash: match self.prev_hash {
                Some(hash) => Some(hash@),
                None => None,
            },
            prefix: self.extranonce_prefix@,
            extranonce_len: (self.extranonce_prefix@.len() + self.extranonce2_len) as nat,
            clean: self.clean_jobs,
        }
    }
}

impl NextNotify {
    /// The state before anything has arrived. The extranonce is `prefix`
    /// and then `extranonce2_len` bytes more, which have to fit in what the
    /// prefix leaves of 32 bytes.
    pub fn new(prefix: Extranonce, extranonce2_len: usize) -> (res: Result<NextNotify, Error>)
        ensures
            match res {
                Ok(state) => {
                    &&& prefix@.len() + extranonce2_len <= EXTRANONCE_MAX_LEN
                    &&& state@ == JobState {
                        active: None,
                        pending: None,
                        hash: None,
                        prefix: prefix@,
                        extranonce_len: (prefix@.len() + extranonce2_len) as nat,
                        clean: true,
                    }
                    &&& state@.well_formed()
                },
                Err(error) => {
                    &&& prefix@.len() + extranonce2_len > EXTRANONCE_MAX_LEN
                    &&& error == Error::CodecLength {
                        len: extranonce2_len,
                        max: (EXTRANONCE_MAX_LEN - prefix@.len()) as usize,
                    }
                },
            },
    {
        let room = EXTRANONCE_MAX_LEN - prefix.len();
        if extranonce2_len > room {
            return Err(Error::CodecLength { len: extranonce2_len, max: room });
        }
        Ok(
            NextNotify {
                active: None,
                pending: None,
                prev_hash: None,
                extranonce_prefix: prefix,
                extranonce2_len,
                clean_jobs: true,
            },
        )
    }

    /// Takes a template in. One that is for a previous-block hash yet to
    /// come waits, in place of any that waited before. Any other is in force
    /// at once, in place of the template that was.
    pub fn set_template(&mut self, template: NewTemplate)
        requires
            old(self)@.well_formed(),
        ensures
            final(self)@ == old(self)@.with_template(template),
            final(self)@.well_formed(),
    {
        if template.future_template {
            self.pending = Some(template);
        } else {
            let had_job = self.active.is_some() && self.prev_hash.is_some();
            self.active = Some(template);
            self.clean_jobs = !had_job;
        }
    }

    /// Takes a previous-block hash in: it is in force from now on, and the
    /// next job is the first on it. Where the template that waits has the
    /// identifier `template_id`, that template is in force from now on too,
    /// and none waits.
    pub fn set_prev_hash(&mut self, prev_hash: PrevHash, template_id: u64)
        requires
            old(self)@.well_formed(),
        ensures
            final(self)@ == old(self)@.with_prev_hash(prev_hash@, template_id),
            final(self)@.well_formed(),
    {
        let promote = match &self.pending {
            Some(waiting) => waiting.template_id == template_id,
            None => false,
        };
        if promote {
            self.active = self.pending.take();
        }
        self.prev_hash = Some(prev_hash);
        self.clean_jobs = true;
    }

    /// The job in force, in the fields of a legacy notification. It is made
    /// of the template and the previous-block hash in force, never of a
    /// template that still waits; while either is missing, there is none.
    pub fn current_job(&self) -> (res: Result<NotifyFields, NotReady>)
        requires
            self@.well_formed(),
        ensures
            match (self@.active, self@.hash) {
                (Some(template), Some(hash)) => res matches Ok(fields) && fields.describes(
                    template,
                    hash,
                    self@.extranonce_len,
                    self@.clean,
                ),
                _ => res is Err,
            },
    {
        let template = match &self.active {
            Some(template) => template,
            None => {
                return Err(NotReady);
            },
        };
        let hash = match &self.prev_hash {
            Some(hash) => hash,
            None => {
                return Err(NotReady);
            },
        };
        let extranonce_len = self.extranonce_prefix.len() + self.extranonce2_len;
        let head = coinbase_head(
            template.coinbase_tx_version,
            template.coinbase_prefix.inner_as_ref(),
            extranonce_len,
        );
        let tail = coinbase_tail(
            template.coinbase_tx_input_sequence,
            template.coinbase_tx_outputs_count,
            template.coinbase_tx_outputs.inner_as_ref(),
            template.coinbase_tx_locktime,
        );
        let path = template.merkle_path.inner_as_ref();
        let mut merkle_branch: Vec<String> = Vec::new();
        let mut i: usize = 0;
        while i < path.len()
            invariant
                i <= path@.len(),
                merkle_branch@.len() == i,
                forall|j: int|
                    0 <= j < i ==> (#[trigger] merkle_branch@[j])@ == hex_string(path@[j]@),
            decreases path@.len() - i,
        {
            let node = MerkleNode(path[i].clone());
            merkle_branch.push(node.to_hex());
            i += 1;
        }
        Ok(
            NotifyFields {
                job_id: template.template_id,
                prev_hash: hash.to_legacy_hex(),
                coin_base1: hex_encode(head.as_slice()),
                coin_base2: hex_encode(tail.as_slice()),
                merkle_branch,
                version: HexU32Be(template.version).to_hex(),
                clean_jobs: self.clean_jobs,
            },
        )
    }

    /// The template in force, borrowed.
    pub fn active_template(&self) -> (template: Option<&NewTemplate>)
        ensures
            match template {
                Some(t) => self@.active == Some(*t),
                None => self@.active is None,
            },
    {
        self.active.as_ref()
    }

    /// The previous-block hash in force, borrowed.
    pub fn active_prev_hash(&self) -> (hash: Option<&PrevHash>)
        ensures
            match hash {
                Some(h) => self@.hash == Some(h@),
                None => self@.hash is None,
            },
    {
        self.prev_hash.as_ref()
    }

    /// The bytes that upstream puts in front of every extranonce.
    pub fn extranonce_prefix(&self) -> (prefix: &Extranonce)
        ensures
            prefix@ == self@.prefix,
    {
        &self.extranonce_prefix
    }

    /// The number of bytes that follow the prefix in an extranonce.
    pub fn extranonce2_len(&self) -> (len: usize)
        ensures
            len == self@.extranonce_len - self@.prefix.len(),
    {
        self.extranonce2_len
    }
}

/// A template for a previous-block hash yet to come, and then the
/// announcement of a previous-block hash for that template: the template is
/// in force, none waits, and there is a job, the first on its hash.
pub proof fn lemma_future_template_is_promoted(
    state: JobState,
    template: NewTemplate,
    prev_hash: Seq<u8>,
)
    requires
        template.future_template,
    ensures
        state.with_template(template).with_prev_hash(prev_hash, template.template_id)
            == (JobState {
            active: Some(template),
            pending: None,
            hash: Some(prev_hash),
            clean: true,
            ..state
        }),
        state.with_template(template).with_prev_hash(prev_hash, template.template_id).ready(),
{
}

/// Templates alone make no job: as long as no previous-block hash has been
/// taken in, none is in force, whatever templates arrive.
pub proof fn lemma_no_job_before_prev_hash(state: JobState, template: NewTemplate)
    requires
        state.hash is None,
    ensures
        !state.ready(),
        state.with_template(template).hash is None,
        !state.with_template(template).ready(),
{
}

/// A template that waits is part of no job: taking it in leaves the template
/// in force, and the previous-block hash in force, as they were. It comes
/// into force only with the announcement of its previous-block hash; any
/// other announcement leaves it waiting.
pub proof fn lemma_waiting_template_is_no_job(
    state: JobState,
    template: NewTemplate,
    prev_hash: Seq<u8>,
    template_id: u64,
)
    requires
        template.future_template,
        template_id != template.template_id,
    ensures
        state.with_template(template).active == state.active,
        state.with_template(template).hash == state.hash,
        state.with_template(template).clean == state.clean,
        state.with_template(template).with_prev_hash(prev_hash, template_id).active
            == state.active,
        state.with_template(template).with_prev_hash(prev_hash, template_id).pending == Some(
            template,
        ),
{
}

/// Whatever arrives, a state that is well formed stays so.
pub proof fn lemma_well_formed_is_kept(
    state: JobState,
    template: NewTemplate,
    prev_hash: Seq<u8>,
    template_id: u64,
)
    requires
        state.well_formed(),
    ensures
        state.with_template(template).well_formed(),
        state.with_prev_hash(prev_hash, template_id).well_formed(),
{
}

} // verus!
