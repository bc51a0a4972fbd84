//! The audit builder: serializes a plan (and optionally its execution
//! result) to a canonical string of length-prefixed fields, signs it with
//! the SHA-256 of the string and the previous entry's signature, and checks
//! individual links and whole chains. Persistence and retrieval of entries
//! belong to an external store; this core computes and validates links.

use vstd::prelude::*;
use crate::text::{self, dec_seq, field_enc, hex_seq};
use crate::types::{
    clone_string, wire_tag, Action, ActionCore, ActionPlan, ActionResult, ArgsV, AuditEntry,
    CoreError,
};
use crate::runtime::{self, TIME_MAX};

verus! {

/// A one-character truth flag.
pub open spec fn flag(b: bool) -> Seq<char> {
    if b {
        seq!['1']
    } else {
        seq!['0']
    }
}

/// Canonical encoding of one action: id, kind tag, then the argument
/// strings of its payload.
pub open spec fn enc_action(id: Seq<char>, a: ActionCore) -> Seq<char> {
    field_enc(id) + field_enc(wire_tag(a.action_type)) + match a.args {
        ArgsV::CreateFile { path, content, encoding } => field_enc(path) + field_enc(content)
            + field_enc(encoding),
        ArgsV::ReadFile { path } => field_enc(path),
        ArgsV::CopyFile { source_path, destination_path } => field_enc(source_path) + field_enc(
            destination_path,
        ),
        ArgsV::MoveFile { source_path, destination_path } => field_enc(source_path) + field_enc(
            destination_path,
        ),
        ArgsV::DeleteFile { path } => field_enc(path),
        ArgsV::CreateDirectory { path } => field_enc(path),
    }
}

/// Canonical encoding of an action list.
pub open spec fn enc_actions(ids: Seq<Seq<char>>, acts: Seq<ActionCore>) -> Seq<char>
    decreases acts.len(),
{
    if acts.len() == 0 || acts.len() != ids.len() {
        Seq::empty()
    } else {
        enc_actions(ids.drop_last(), acts.drop_last()) + enc_action(ids.last(), acts.last())
    }
}

/// Canonical encoding of a whole entry: the plan's ids and fields, its
/// actions, and the result's success flag and time when one is attached.
pub open spec fn entry_canon(plan: &ActionPlan, res: Option<(bool, int)>) -> Seq<char> {
    entry_head(plan) + enc_actions(
        plan.schema.actions@.map_values(|a: Action| a.id@),
        plan.skeleton().actions,
    ) + match res {
        None => field_enc(flag(false)),
        Some(r) => field_enc(flag(true)) + field_enc(flag(r.0)) + field_enc(
            dec_seq(r.1 as nat),
        ),
    }
}

/// A link is valid when its signature is the hash of its own content and
/// the previous signature it names.
pub open spec fn link_ok(e: AuditEntry) -> bool {
    e.signature@ == hex_seq(runtime::sha256_pair_digest(e.entry_json@, e.prev_hash@))
}

/// A chain is valid when every link is, and every entry names its
/// predecessor's signature.
pub open spec fn chain_ok(es: Seq<AuditEntry>) -> bool {
    &&& forall|k: int| 0 <= k < es.len() ==> link_ok(#[trigger] es[k])
    &&& forall|k: int| 1 <= k < es.len() ==> (#[trigger] es[k]).prev_hash@ == es[k - 1].signature@
}

/// The chain signature over an entry string and its predecessor's hash.
pub fn generate_signature(entry: &str, prev_hash: &str) -> (r: String)
    ensures
        r@ == hex_seq(runtime::sha256_pair_digest(entry@, prev_hash@)),
{
    let digest = runtime::sha256_pair(entry, prev_hash);
    let hx = text::bytes_to_hex(&digest);
    text::chars_to_string(&hx)
}

/// Append the canonical encoding of one action.
fn encode_one_action(out: &mut Vec<char>, action: &Action)
    ensures
        final(out)@ == old(out)@ + enc_action(action.id@, action.skeleton()),
{
    text::push_field(out, &text::str_chars(action.id.as_str()));
    text::push_field(out, &text::str_chars(action.action_type.tag()));
    match &action.args {
        crate::types::ActionArgs::CreateFile { path, content, encoding } => {
            text::push_field(out, &text::str_chars(path.as_str()));
            text::push_field(out, &text::str_chars(content.as_str()));
            text::push_field(out, &text::str_chars(encoding.as_str()));
        },
        crate::types::ActionArgs::ReadFile { path } => {
            text::push_field(out, &text::str_chars(path.as_str()));
        },
        crate::types::ActionArgs::CopyFile { source_path, destination_path } => {
            text::push_field(out, &text::str_chars(source_path.as_str()));
            text::push_field(out, &text::str_chars(destination_path.as_str()));
        },
        crate::types::ActionArgs::MoveFile { source_path, destination_path } => {
            text::push_field(out, &text::str_chars(source_path.as_str()));
            text::push_field(out, &text::str_chars(destination_path.as_str()));
        },
        crate::types::ActionArgs::DeleteFile { path } => {
            text::push_field(out, &text::str_chars(path.as_str()));
        },
        crate::types::ActionArgs::CreateDirectory { path } => {
            text::push_field(out, &text::str_chars(path.as_str()));
        },
    }
    proof {
        assert(final(out)@ =~= old(out)@ + enc_action(action.id@, action.skeleton()));
    }
}

/// The seven header fields of the canonical entry encoding.
pub open spec fn entry_head(plan: &ActionPlan) -> Seq<char> {
    field_enc(plan.schema.id@) + field_enc(plan.schema.origin.request_id@) + field_enc(
        plan.schema.origin.user_input@,
    ) + field_enc(plan.schema.summary@) + field_enc(dec_seq(plan.schema.risk_score as nat))
        + field_enc(flag(plan.schema.dry_run)) + field_enc(
        dec_seq(plan.schema.actions@.len()),
    )
}

/// Append the header fields.
fn encode_head(out: &mut Vec<char>, plan: &ActionPlan)
    ensures
        final(out)@ == old(out)@ + entry_head(plan),
{
    text::push_field(out, &text::str_chars(plan.schema.id.as_str()));
    text::push_field(out, &text::str_chars(plan.schema.origin.request_id.as_str()));
    text::push_field(out, &text::str_chars(plan.schema.origin.user_input.as_str()));
    text::push_field(out, &text::str_chars(plan.schema.summary.as_str()));
    text::push_field(out, &text::u64_to_dec(plan.schema.risk_score as u64));
    push_flag(out, plan.schema.dry_run);
    let n = plan.schema.actions.len();
    text::push_field(out, &text::u64_to_dec(n as u64));
    proof {
        assert(final(out)@ =~= old(out)@ + entry_head(plan));
    }
}

/// Serialize a plan and an optional result to the canonical entry string.
#[verifier::loop_isolation(false)]
#[verifier::rlimit(60)]
pub fn encode_entry(plan: &ActionPlan, action_result: Option<&ActionResult>) -> (r: String)
    requires
        action_result matches Some(res) ==> 0 <= res.executed_at,
    ensures
        r@ == entry_canon(
            plan,
            match action_result {
                None => None,
                Some(res) => Some((res.success, res.executed_at as int)),
            },
        ),
{
    let ghost ids = plan.schema.actions@.map_values(|a: Action| a.id@);
    let ghost acts = plan.skeleton().actions;
    let mut out: Vec<char> = Vec::new();
    encode_head(&mut out, plan);
    let n = plan.schema.actions.len();
    let ghost head = out@;
    proof {
        assert(head =~= entry_head(plan));
        assert(ids.subrange(0, 0) =~= Seq::<Seq<char>>::empty());
        assert(acts.subrange(0, 0) =~= Seq::<ActionCore>::empty());
        assert(enc_actions(ids.subrange(0, 0), acts.subrange(0, 0)) =~= Seq::<char>::empty());
        assert(out@ =~= head + enc_actions(ids.subrange(0, 0), acts.subrange(0, 0)));
    }
    for i in 0..n
        invariant
            n == plan.schema.actions@.len(),
            ids.len() == n,
            acts.len() == n,
            out@ == head + enc_actions(ids.subrange(0, i as int), acts.subrange(0, i as int)),
    {
        let ghost pid = ids.subrange(0, i as int);
        let ghost pac = acts.subrange(0, i as int);
        let ghost pid1 = ids.subrange(0, i + 1 as int);
        let ghost pac1 = acts.subrange(0, i + 1 as int);
        proof {
            assert(pid1.drop_last() =~= pid);
            assert(pac1.drop_last() =~= pac);
            assert(pid1.last() == ids[i as int]);
            assert(pac1.last() == acts[i as int]);
            assert(pid1.len() == pac1.len());
            assert(ids[i as int] == plan.schema.actions@[i as int].id@);
            assert(acts[i as int] == plan.schema.actions@[i as int].skeleton());
        }
        let action = &plan.schema.actions[i];
        encode_one_action(&mut out, action);
        proof {
            assert(out@ =~= head + enc_actions(pid1, pac1));
        }
    }
    proof {
        assert(ids.subrange(0, n as int) =~= ids);
        assert(acts.subrange(0, n as int) =~= acts);
    }
    match action_result {
        None => {
            push_flag(&mut out, false);
        },
        Some(res) => {
            push_flag(&mut out, true);
            push_flag(&mut out, res.success);
            text::push_field(&mut out, &text::u64_to_dec(res.executed_at as u64));
        },
    }
    let r = text::chars_to_string(&out);
    proof {
        assert(r@ =~= entry_canon(
            plan,
            match action_result {
                None => None,
                Some(res) => Some((res.success, res.executed_at as int)),
            },
        ));
    }
    r
}

/// Append a one-character truth flag as a field.
fn push_flag(out: &mut Vec<char>, b: bool)
    ensures
        final(out)@ == old(out)@ + field_enc(flag(b)),
{
    let mut f: Vec<char> = Vec::new();
    if b {
        f.push('1');
    } else {
        f.push('0');
    }
    proof {
        assert(f@ =~= flag(b));
    }
    text::push_field(out, &f);
}

/// Prepares audit entries and validates links; the backing store that
/// persists entries and serializes chain appends is external.
pub struct AuditLog {
    /// Kept so that a host can route several logs; unused by the builder.
    pub label: String,
}

impl AuditLog {
    /// A builder for one audit chain.
    pub fn new(label: String) -> (r: AuditLog)
        ensures
            r.label@ == label@,
    {
        AuditLog { label }
    }

    /// Build the next entry of the chain: serialize the plan and result,
    /// chain the signature over the given previous hash, stamp the time
    /// and a fresh id. The caller persists the entry.
    pub fn append_entry(
        &self,
        action_plan: &ActionPlan,
        action_result: Option<&ActionResult>,
        prev_hash: &str,
    ) -> (r: Result<AuditEntry, CoreError>)
        requires
            action_result matches Some(res) ==> 0 <= res.executed_at,
        ensures
            r matches Ok(e) && {
                &&& e.entry_json@ == entry_canon(
                    action_plan,
                    match action_result {
                        None => None::<(bool, int)>,
                        Some(res) => Some((res.success, res.executed_at as int)),
                    },
                )
                &&& e.prev_hash@ == prev_hash@
                &&& link_ok(e)
                &&& 0 <= e.timestamp <= TIME_MAX
                &&& e.action_id matches Some(aid) && aid@ == action_plan.schema.id@
                &&& e.id@.len() == 36
            },
    {
        let entry_json = encode_entry(action_plan, action_result);
        let signature = generate_signature(entry_json.as_str(), prev_hash);
        let timestamp = runtime::current_time();
        let id = runtime::fresh_id();
        Ok(
            AuditEntry {
                id,
                entry_json,
                timestamp,
                prev_hash: prev_hash.to_owned(),
                signature,
                action_id: Some(clone_string(&action_plan.schema.id)),
            },
        )
    }

    /// Check one link of the chain.
    pub fn verify_link(&self, entry: &AuditEntry) -> (r: bool)
        ensures
            r == link_ok(*entry),
    {
        let expected = generate_signature(entry.entry_json.as_str(), entry.prev_hash.as_str());
        text::str_eq(entry.signature.as_str(), expected.as_str())
    }

    /// Check a stored chain: every link valid, every entry naming its
    /// predecessor's signature.
    #[verifier::loop_isolation(false)]
    pub fn verify_integrity(&self, entries: &Vec<AuditEntry>) -> (r: bool)
        ensures
            r == chain_ok(entries@),
    {
        let n = entries.len();
        for i in 0..n
            invariant
                n == entries@.len(),
                forall|k: int| 0 <= k < i ==> link_ok(#[trigger] entries@[k]),
                forall|k: int|
                    1 <= k < i ==> (#[trigger] entries@[k]).prev_hash@ == entries@[k
                        - 1].signature@,
        {
            if !self.verify_link(&entries[i]) {
                return false;
            }
            if i > 0 {
                if !text::str_eq(
                    entries[i].prev_hash.as_str(),
                    entries[i - 1].signature.as_str(),
                ) {
                    return false;
                }
            }
        }
        true
    }

    /// Entry history lives in the external store; in-process there is none.
    pub fn get_history(&self, _limit: i32) -> (r: Result<Vec<AuditEntry>, CoreError>)
        ensures
            r matches Ok(v) && v@.len() == 0,
    {
        Ok(Vec::new())
    }
}

} // verus!
