//! The bridge between the two protocols: it turns what arrives from upstream
//! into legacy job notifications, turns legacy share submissions into shares
//! for upstream, and gives every downstream link a part of the extranonce
//! space of its own.
//!
//! The bridge decides and keeps state; it sends and receives nothing. The
//! task that owns it hands it each message that arrived and sends what it
//! hands back.

use vstd::prelude::*;

use crate::error::{Error, RequiredField};
use crate::new_template::NewTemplate;
use crate::next_notify::{JobState, NextNotify, NotifyFields};
use crate::status::{is_fatal, Stream};
use crate::utils::{word_string, Extranonce, HexU32Be, PrevHash, EXTRANONCE_MAX_LEN};

verus! {

/// The number of jobs that stay known after they were announced.
pub const HISTORY_LEN: usize = 16;

/// The number of bytes of the tag that tells the extranonces of one
/// downstream link from those of every other.
pub const LINK_TAG_LEN: usize = 2;

/// The number of tags there are, so the most links that can be registered.
pub const LINK_TAGS: u32 = 0x1_0000;

/// The announcement of a previous-block hash, as upstream sends it.
#[derive(Debug, Clone, PartialEq)]
pub struct SetNewPrevHash {
    /// The template that the hash is for.
    pub template_id: u64,
    /// The hash of the block to build on.
    pub prev_hash: PrevHash,
    /// The least time that the header may carry.
    pub header_timestamp: u32,
    /// The difficulty of the block, in the compact form of the header.
    pub n_bits: u32,
}

/// A legacy job notification.
#[derive(Debug, Clone, PartialEq)]
pub struct Notify {
    /// What the job-translation state says of the job.
    pub fields: NotifyFields,
    /// The difficulty of the block, as eight hex digits.
    pub bits: String,
    /// The time of the header, as eight hex digits.
    pub time: String,
}

/// A legacy share submission, already parsed.
#[derive(Debug, Clone, PartialEq)]
pub struct Submit {
    /// The job that the share is for.
    pub job_id: u64,
    /// The part of the extranonce that the miner chose.
    pub extra_nonce2: Extranonce,
    /// The time that the miner put in the header.
    pub time: HexU32Be,
    /// The nonce that the miner found.
    pub nonce: HexU32Be,
    /// The version bits that the miner put in the header. A submission
    /// without them is refused.
    pub version_bits: Option<HexU32Be>,
}

/// A share for upstream.
#[derive(Debug, Clone, PartialEq)]
pub struct SubmitSharesExtended {
    pub channel_id: u32,
    pub sequence_number: u32,
    pub job_id: u64,
    pub nonce: u32,
    pub ntime: u32,
    pub version: u32,
    /// What follows the upstream's prefix in the extranonce: the tag of the
    /// link and the part that the miner chose.
    pub extranonce: Extranonce,
}

/// What a downstream link is given when it registers.
#[derive(Debug, Clone, PartialEq)]
pub struct DownstreamLink {
    /// The tag of the link; no other link has it.
    pub tag: u16,
    /// What the extranonce of every share of this link begins with: the
    /// upstream's prefix and then the tag.
    pub extranonce1: Extranonce,
    /// The number of bytes that the miner adds.
    pub extranonce2_len: usize,
}

/// The two bytes of a tag, the high byte first.
pub open spec fn tag_bytes(tag: u16) -> Seq<u8> {
    seq![(tag / 0x100) as u8, (tag % 0x100) as u8]
}

/// An extranonce of the link `tag` under the upstream prefix `prefix`: the
/// prefix, the tag, and the miner's part `chosen`.
pub open spec fn link_extranonce(prefix: Seq<u8>, tag: u16, chosen: Seq<u8>) -> Seq<u8> {
    prefix + tag_bytes(tag) + chosen
}

/// The jobs known after the job `job_id` was announced: it comes last, and
/// where 16 were known already, the oldest goes.
pub open spec fn remembered(known: Seq<u64>, job_id: u64) -> Seq<u64> {
    if known.len() < HISTORY_LEN {
        known.push(job_id)
    } else {
        known.drop_first().push(job_id)
    }
}

/// The sequence number after `sequence`; after the largest comes 0.
pub open spec fn following(sequence: u32) -> u32 {
    if sequence == u32::MAX {
        0
    } else {
        (sequence + 1) as u32
    }
}

/// What the bridge holds, as plain values.
pub struct BridgeState {
    /// The job-translation state.
    pub jobs: JobState,
    /// The difficulty that came with the previous-block hash in force.
    pub bits: u32,
    /// The time that came with the previous-block hash in force.
    pub time: u32,
    /// The jobs that are known, oldest first.
    pub known_jobs: Seq<u64>,
    /// The number of links registered; their tags are the numbers below.
    pub registered: nat,
    /// The number of bytes that a miner adds to the extranonce.
    pub chosen_len: nat,
    /// The channel to upstream.
    pub channel: u32,
    /// The sequence number of the next share.
    pub sequence: u32,
}

impl BridgeState {
    /// The state holds together: the job-translation state is well formed,
    /// the extranonce is the upstream's prefix, a tag and the miner's part,
    /// no more jobs are known than are kept, and no more links are
    /// registered than there are tags.
    pub open spec fn well_formed(self) -> bool {
        &&& self.jobs.well_formed()
        &&& self.jobs.extranonce_len == self.jobs.prefix.len() + LINK_TAG_LEN + self.chosen_len
        &&& self.known_jobs.len() <= HISTORY_LEN
        &&& self.registered <= LINK_TAGS
    }

    /// The notification `notify` announces the job in force.
    pub open spec fn announces(self, notify: Notify) -> bool {
        &&& self.jobs.active matches Some(template)
        &&& self.jobs.hash matches Some(hash)
        &&& notify.fields.describes(template, hash, self.jobs.extranonce_len, self.jobs.clean)
        &&& notify.bits@ == word_string(self.bits)
        &&& notify.time@ == word_string(self.time)
    }

    /// Taking `template` in makes a new job: the template is for the
    /// previous-block hash in force, and such a hash is in force.
    pub open spec fn makes_job(self, template: NewTemplate) -> bool {
        !template.future_template && self.jobs.hash is Some
    }

    /// The state after `template` has been taken in: the job-translation
    /// state has it, and where it makes a new job, that job is the last of
    /// the known jobs.
    pub open spec fn after_template(self, template: NewTemplate) -> BridgeState {
        BridgeState {
            jobs: self.jobs.with_template(template),
            known_jobs: if self.makes_job(template) {
                remembered(self.known_jobs, template.template_id)
            } else {
                self.known_jobs
            },
            ..self
        }
    }

    /// The state after the announcement of the previous-block hash
    /// `prev_hash` for the template `template_id`, with the time and the
    /// difficulty that came with it: the job-translation state has the hash,
    /// and where a template is in force then, its job is the last of the
    /// known jobs.
    pub open spec fn after_prev_hash(
        self,
        template_id: u64,
        prev_hash: Seq<u8>,
        header_timestamp: u32,
        n_bits: u32,
    ) -> BridgeState {
        let jobs = self.jobs.with_prev_hash(prev_hash, template_id);
        BridgeState {
            jobs,
            bits: n_bits,
            time: header_timestamp,
            known_jobs: match jobs.active {
                Some(template) => remembered(self.known_jobs, template.template_id),
                None => self.known_jobs,
            },
            ..self
        }
    }

    /// The state after a link asked to be registered: one link more, unless
    /// every tag is taken.
    pub open spec fn after_register(self) -> BridgeState {
        if self.registered < LINK_TAGS {
            BridgeState { registered: self.registered + 1, ..self }
        } else {
            self
        }
    }

    /// Why the submission `submit` of the link `tag` is refused, if it is:
    /// it lacks the version bits; or no link has the tag, or the job is not
    /// known; or the miner's part of the extranonce has the wrong length.
    pub open spec fn refusal(self, tag: u16, submit: Submit) -> Option<Error> {
        if submit.version_bits is None {
            Some(Error::ProtocolMissingField(RequiredField::VersionBits))
        } else if tag >= self.registered || !self.known_jobs.contains(submit.job_id) {
            Some(Error::ProtocolMismatch { job_id: submit.job_id })
        } else if submit.extra_nonce2@.len() != self.chosen_len {
            Some(
                Error::CodecLength {
                    len: submit.extra_nonce2@.len() as usize,
                    max: self.chosen_len as usize,
                },
            )
        } else {
            None
        }
    }

    /// The share `share` is what the submission `submit` of the link `tag`
    /// becomes.
    pub open spec fn translates(
        self,
        tag: u16,
        submit: Submit,
        share: SubmitSharesExtended,
    ) -> bool {
        &&& share.channel_id == self.channel
        &&& share.sequence_number == self.sequence
        &&& share.job_id == submit.job_id
        &&& share.nonce == submit.nonce.0
        &&& share.ntime == submit.time.0
        &&& submit.version_bits == Some(HexU32Be(share.version))
        &&& share.extranonce@ == tag_bytes(tag) + submit.extra_nonce2@
    }

    /// The state after the submission `submit` of the link `tag`: one that
    /// is refused changes nothing, one that is taken uses up a sequence
    /// number.
    pub open spec fn after_submit(self, tag: u16, submit: Submit) -> BridgeState {
        if self.refusal(tag, submit) is None {
            BridgeState { sequence: following(self.sequence), ..self }
        } else {
            self
        }
    }
}

/// The state of the bridge.
#[derive(Debug)]
pub struct Bridge {
    next_notify: NextNotify,
    n_bits: u32,
    header_timestamp: u32,
    history: Vec<u64>,
    links: u32,
    extranonce2_len: usize,
    channel_id: u32,
    sequence: u32,
}

impl View for Bridge {
    type V = BridgeState;

    closed spec fn view(&self) -> BridgeState {
        BridgeState {
            jobs: self.next_notify@,
            bits: self.n_bits,
            time: self.header_timestamp,
            known_jobs: self.history@,
            registered: self.links as nat,
            chosen_len: self.extranonce2_len as nat,
            channel: self.channel_id,
            sequence: self.sequence,
        }
    }
}

impl Bridge {
    /// A bridge that has seen nothing yet, for the channel `channel_id` on
    /// which upstream gave the extranonce prefix `prefix`. Every extranonce
    /// will be the prefix, a tag of two bytes and `extranonce2_len` bytes of
    /// the miner's, which have to fit in 32 bytes together.
    pub fn new(prefix: Extranonce, extranonce2_len: usize, channel_id: u32) -> (res: Result<
        Bridge,
        Error,
    >)
        ensures
            match res {
                Ok(bridge) => {
                    &&& prefix@.len() + LINK_TAG_LEN + extranonce2_len <= EXTRANONCE_MAX_LEN
                    &&& bridge@ == BridgeState {
                        jobs: JobState {
                            active: None,
                            pending: None,
                            hash: None,
                            prefix: prefix@,
                            extranonce_len: (prefix@.len() + LINK_TAG_LEN + extranonce2_len) as nat,
                            clean: true,
                        },
                        bits: 0,
                        time: 0,
                        known_jobs: Seq::empty(),
                        registered: 0,
                        chosen_len: extranonce2_len as nat,
                        channel: channel_id,
                        sequence: 0,
                    }
                    &&& bridge@.well_formed()
                },
                Err(error) => {
                    &&& prefix@.len() + LINK_TAG_LEN + extranonce2_len > EXTRANONCE_MAX_LEN
                    &&& error == Error::CodecLength {
                        len: extranonce2_len,
                        max: if prefix@.len() + LINK_TAG_LEN <= EXTRANONCE_MAX_LEN {
                            (EXTRANONCE_MAX_LEN - LINK_TAG_LEN - prefix@.len()) as usize
                        } else {
                            0
                        },
                    }
                },
            },
    {
        let taken = prefix.len();
        if taken + LINK_TAG_LEN > EXTRANONCE_MAX_LEN {
            return Err(Error::CodecLength { len: extranonce2_len, max: 0 });
        }
        let room = EXTRANONCE_MAX_LEN - LINK_TAG_LEN - taken;
        if extranonce2_len > room {
            return Err(Error::CodecLength { len: extranonce2_len, max: room });
        }
        match NextNotify::new(prefix, LINK_TAG_LEN + extranonce2_len) {
            Ok(next_notify) => {
                let bridge = Bridge {
                    next_notify,
                    n_bits: 0,
                    header_timestamp: 0,
                    history: Vec::new(),
                    links: 0,
                    extranonce2_len,
                    channel_id,
                    sequence: 0,
                };
                assert(bridge@.known_jobs =~= Seq::empty());
                Ok(bridge)
            },
            Err(error) => Err(error),
        }
    }

    /// Registers a downstream link and gives it a tag that no link had
    /// before, so a part of the extranonce space that no other link shares:
    /// the tag is the number of links registered before. Once every tag is
    /// taken, no link can be registered: a further tag would need three
    /// bytes.
    pub fn register_downstream(&mut self) -> (res: Result<DownstreamLink, Error>)
        requires
            old(self)@.well_formed(),
        ensures
            final(self)@ == old(self)@.after_register(),
            final(self)@.well_formed(),
            match res {
                Ok(link) => {
                    &&& old(self)@.registered < LINK_TAGS
                    &&& link.tag == old(self)@.registered
                    &&& link.extranonce1@ == old(self)@.jobs.prefix + tag_bytes(link.tag)
                    &&& link.extranonce2_len == old(self)@.chosen_len
                },
                Err(error) => {
                    &&& old(self)@.registered == LINK_TAGS
                    &&& error == Error::CodecLength { len: 3, max: LINK_TAG_LEN }
                },
            },
    {
        if self.links >= LINK_TAGS {
            return Err(Error::CodecLength { len: 3, max: LINK_TAG_LEN });
        }
        let tag: u16 = self.links as u16;
        let mut bytes = self.next_notify.extranonce_prefix().to_bytes();
        bytes.push((tag / 0x100) as u8);
        bytes.push((tag % 0x100) as u8);
        assert(bytes@ =~= self@.jobs.prefix + tag_bytes(tag));
        let extranonce1 = Extranonce::from_bytes(bytes).unwrap();
        self.links = self.links + 1;
        Ok(DownstreamLink { tag, extranonce1, extranonce2_len: self.extranonce2_len })
    }

    /// Tests whether the job `job_id` is known.
    fn knows(&self, job_id: u64) -> (known: bool)
        ensures
            known == self@.known_jobs.contains(job_id),
    {
        let mut i: usize = 0;
        while i < self.history.len()
            invariant
                i <= self.history@.len(),
                forall|j: int| 0 <= j < i ==> self.history@[j] != job_id,
            decreases self.history@.len() - i,
        {
            if self.history[i] == job_id {
                return true;
            }
            i += 1;
        }
        false
    }

    /// Makes the job `job_id` the last of the known jobs.
    fn remember(&mut self, job_id: u64)
        requires
            old(self)@.well_formed(),
        ensures
            final(self)@ == (BridgeState {
                known_jobs: remembered(old(self)@.known_jobs, job_id),
                ..old(self)@
            }),
            final(self)@.well_formed(),
    {
        if self.history.len() >= HISTORY_LEN {
            self.history.remove(0);
            assert(self.history@ =~= old(self).history@.drop_first());
        }
        self.history.push(job_id);
    }

    /// Builds the notification of the job in force, if there is one.
    fn announcement(&self) -> (res: Option<Notify>)
        requires
            self@.well_formed(),
        ensures
            res is Some == self@.jobs.ready(),
            res matches Some(notify) ==> self@.announces(notify),
    {
        match self.next_notify.current_job() {
            Ok(fields) => Some(
                Notify {
                    fields,
                    bits: HexU32Be(self.n_bits).to_hex(),
                    time: HexU32Be(self.header_timestamp).to_hex(),
                },
            ),
            Err(_) => None,
        }
    }

    /// Takes a template from upstream in. A template that is for the
    /// previous-block hash in force makes a new job where such a hash is in
    /// force: the job is announced and becomes the last of the known jobs.
    /// A template for a hash yet to come, or a template without any hash in
    /// force, changes no job, and nothing is announced.
    pub fn on_new_template(&mut self, template: NewTemplate) -> (res: Option<Notify>)
        requires
            old(self)@.well_formed(),
        ensures
            final(self)@ == old(self)@.after_template(template),
            final(self)@.well_formed(),
            res is Some == old(self)@.makes_job(template),
            res matches Some(notify) ==> final(self)@.announces(notify),
    {
        let makes_job = !template.future_template && self.next_notify.active_prev_hash().is_some();
        let job_id = template.template_id;
        self.next_notify.set_template(template);
        if makes_job {
            self.remember(job_id);
            self.announcement()
        } else {
            None
        }
    }

    /// Takes the announcement of a previous-block hash from upstream in.
    /// The hash is in force from now on, and so is the template that waited
    /// for it, if one did. Where a template is in force then, there is a new
    /// job: it is announced and becomes the last of the known jobs.
    pub fn on_set_new_prev_hash(&mut self, message: SetNewPrevHash) -> (res: Option<Notify>)
        requires
            old(self)@.well_formed(),
        ensures
            final(self)@ == old(self)@.after_prev_hash(
                message.template_id,
                message.prev_hash@,
                message.header_timestamp,
                message.n_bits,
            ),
            final(self)@.well_formed(),
            res is Some == final(self)@.jobs.active is Some,
            res matches Some(notify) ==> final(self)@.announces(notify),
    {
        self.next_notify.set_prev_hash(message.prev_hash, message.template_id);
        self.n_bits = message.n_bits;
        self.header_timestamp = message.header_timestamp;
        let job_id = match self.next_notify.active_template() {
            Some(template) => Some(template.template_id),
            None => None,
        };
        match job_id {
            Some(job_id) => {
                self.remember(job_id);
                self.announcement()
            },
            None => None,
        }
    }

    /// Turns a legacy share submission of the link `tag` into a share for
    /// upstream. The job that the submission names has to be known; it need
    /// not be the job in force. A submission that is refused changes
    /// nothing; one that is taken uses up a sequence number.
    pub fn translate_submit(&mut self, tag: u16, submit: Submit) -> (res: Result<
        SubmitSharesExtended,
        Error,
    >)
        requires
            old(self)@.well_formed(),
        ensures
            final(self)@ == old(self)@.after_submit(tag, submit),
            final(self)@.well_formed(),
            match res {
                Ok(share) => old(self)@.refusal(tag, submit) is None && old(self)@.translates(
                    tag,
                    submit,
                    share,
                ),
                Err(error) => old(self)@.refusal(tag, submit) == Some(error),
            },
    {
        let version = match submit.version_bits {
            Some(bits) => bits.0,
            None => {
                return Err(Error::ProtocolMissingField(RequiredField::VersionBits));
            },
        };
        if tag as u32 >= self.links || !self.knows(submit.job_id) {
            return Err(Error::ProtocolMismatch { job_id: submit.job_id });
        }
        let chosen = submit.extra_nonce2.as_ref();
        if chosen.len() != self.extranonce2_len {
            return Err(Error::CodecLength { len: chosen.len(), max: self.extranonce2_len });
        }
        let mut bytes: Vec<u8> = Vec::new();
        bytes.push((tag / 0x100) as u8);
        bytes.push((tag % 0x100) as u8);
        let mut i: usize = 0;
        while i < chosen.len()
            invariant
                i <= chosen@.len(),
                bytes@ == tag_bytes(tag) + chosen@.subrange(0, i as int),
            decreases chosen@.len() - i,
        {
            bytes.push(chosen[i]);
            i += 1;
        }
        assert(chosen@.subrange(0, chosen@.len() as int) =~= chosen@);
        let extranonce = Extranonce::from_bytes(bytes).unwrap();
        let sequence_number = self.sequence;
        self.sequence = if sequence_number == u32::MAX {
            0
        } else {
            sequence_number + 1
        };
        Ok(
            SubmitSharesExtended {
                channel_id: self.channel_id,
                sequence_number,
                job_id: submit.job_id,
                nonce: submit.nonce.0,
                ntime: submit.time.0,
                version,
                extranonce,
            },
        )
    }
}

/// Two links never share an extranonce: under one prefix, whatever the
/// miners of two links with different tags choose, the extranonces differ.
pub proof fn lemma_links_never_overlap(
    prefix: Seq<u8>,
    first: u16,
    second: u16,
    chosen_first: Seq<u8>,
    chosen_second: Seq<u8>,
)
    requires
        first != second,
    ensures
        link_extranonce(prefix, first, chosen_first) != link_extranonce(
            prefix,
            second,
            chosen_second,
        ),
{
    let a = link_extranonce(prefix, first, chosen_first);
    let b = link_extranonce(prefix, second, chosen_second);
    let at = prefix.len() as int;
    assert(a[at] == tag_bytes(first)[0] && a[at + 1] == tag_bytes(first)[1]);
    assert(b[at] == tag_bytes(second)[0] && b[at + 1] == tag_bytes(second)[1]);
    assert(first == (first / 0x100) * 0x100 + first % 0x100);
    assert(second == (second / 0x100) * 0x100 + second % 0x100);
}

/// Of two links registered one after the other, however many in between,
/// the later one has another tag, and with it extranonces that the earlier
/// one never has: each is tagged with the number of links before it, and
/// that number only grows.
pub proof fn lemma_later_link_is_apart(
    earlier: BridgeState,
    later: BridgeState,
    chosen_earlier: Seq<u8>,
    chosen_later: Seq<u8>,
)
    requires
        earlier.registered < later.registered < LINK_TAGS,
        earlier.jobs.prefix == later.jobs.prefix,
    ensures
        earlier.after_register().registered == earlier.registered + 1,
        later.after_register().registered == later.registered + 1,
        earlier.registered as u16 != later.registered as u16,
        link_extranonce(earlier.jobs.prefix, earlier.registered as u16, chosen_earlier)
            != link_extranonce(later.jobs.prefix, later.registered as u16, chosen_later),
{
    lemma_links_never_overlap(
        earlier.jobs.prefix,
        earlier.registered as u16,
        later.registered as u16,
        chosen_earlier,
        chosen_later,
    );
}

/// Nothing that the bridge takes in makes the number of registered links
/// smaller, or changes the prefix that their extranonces begin with.
pub proof fn lemma_links_stay_registered(
    state: BridgeState,
    template: NewTemplate,
    template_id: u64,
    prev_hash: Seq<u8>,
    header_timestamp: u32,
    n_bits: u32,
    tag: u16,
    submit: Submit,
)
    ensures
        state.after_template(template).registered == state.registered,
        state.after_prev_hash(template_id, prev_hash, header_timestamp, n_bits).registered
            == state.registered,
        state.after_submit(tag, submit).registered == state.registered,
        state.after_register().registered >= state.registered,
        state.after_template(template).jobs.prefix == state.jobs.prefix,
        state.after_prev_hash(template_id, prev_hash, header_timestamp, n_bits).jobs.prefix
            == state.jobs.prefix,
        state.after_submit(tag, submit).jobs.prefix == state.jobs.prefix,
        state.after_register().jobs.prefix == state.jobs.prefix,
{
}

/// A submission with version bits, from a registered link, with a miner's
/// part of the right length, is taken whenever its job is known: the job
/// need not be the one in force.
pub proof fn lemma_known_job_is_translated(state: BridgeState, tag: u16, submit: Submit)
    requires
        submit.version_bits is Some,
        tag < state.registered,
        state.known_jobs.contains(submit.job_id),
        submit.extra_nonce2@.len() == state.chosen_len,
    ensures
        state.refusal(tag, submit) is None,
{
}

/// When a job is announced, it is known from then on, and so are the 15
/// jobs that were announced last before it.
pub proof fn lemma_earlier_jobs_stay_known(known: Seq<u64>, job_id: u64, i: int)
    requires
        known.len() <= HISTORY_LEN,
        0 <= i < known.len(),
        known.len() - i < HISTORY_LEN,
    ensures
        remembered(known, job_id).len() <= HISTORY_LEN,
        remembered(known, job_id).last() == job_id,
        remembered(known, job_id).contains(job_id),
        remembered(known, job_id).contains(known[i]),
{
    let after = remembered(known, job_id);
    assert(after[after.len() - 1] == job_id);
    if known.len() < HISTORY_LEN {
        assert(after[i] == known[i]);
    } else {
        assert(after[i - 1] == known[i]);
    }
}

/// The job that a template or a previous-block hash puts in force is known
/// at once, and the job that was in force before it is still known.
pub proof fn lemma_job_in_force_is_known(
    state: BridgeState,
    template: NewTemplate,
    template_id: u64,
    prev_hash: Seq<u8>,
    header_timestamp: u32,
    n_bits: u32,
)
    requires
        state.well_formed(),
    ensures
        state.makes_job(template) ==> state.after_template(template).known_jobs.contains(
            template.template_id,
        ),
        state.after_prev_hash(template_id, prev_hash, header_timestamp, n_bits).jobs.active
            matches Some(active) ==> state.after_prev_hash(
            template_id,
            prev_hash,
            header_timestamp,
            n_bits,
        ).known_jobs.contains(active.template_id),
        state.known_jobs.len() > 0 ==> state.after_template(template).known_jobs.contains(
            state.known_jobs.last(),
        ) && state.after_prev_hash(
            template_id,
            prev_hash,
            header_timestamp,
            n_bits,
        ).known_jobs.contains(state.known_jobs.last()),
{
    if state.makes_job(template) {
        let after = remembered(state.known_jobs, template.template_id);
        assert(after.last() == template.template_id);
    }
    let jobs = state.jobs.with_prev_hash(prev_hash, template_id);
    if let Some(active) = jobs.active {
        let after = remembered(state.known_jobs, active.template_id);
        assert(after.last() == active.template_id);
    }
    if state.known_jobs.len() > 0 {
        let last = state.known_jobs.len() - 1;
        lemma_earlier_jobs_stay_known(state.known_jobs, template.template_id, last);
        if let Some(active) = jobs.active {
            lemma_earlier_jobs_stay_known(state.known_jobs, active.template_id, last);
        }
    }
}

/// A submission without version bits is refused for that reason, whatever
/// else it holds; the refusal changes nothing in the bridge and does not
/// end the task.
pub proof fn lemma_missing_version_bits_is_refused(state: BridgeState, tag: u16, submit: Submit)
    requires
        submit.version_bits is None,
    ensures
        state.refusal(tag, submit) == Some(
            Error::ProtocolMissingField(RequiredField::VersionBits),
        ),
        state.after_submit(tag, submit) == state,
        !is_fatal(Error::ProtocolMissingField(RequiredField::VersionBits), Stream::Submission),
{
}

} // verus!
