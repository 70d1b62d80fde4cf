//! Deterministic rendering of a configuration snapshot, for a given role,
//! into the concrete artifact handed to the managed process.
//!
//! Rendering is a pure function of the snapshot's content and the role: the
//! same inputs always produce the same bytes and the same content hash, so
//! the control loop can compare hashes to avoid spurious restarts. A missing
//! required key fails the whole render, naming the offending key; nothing is
//! partially produced.

use crate::config::{has_key, held_val, ConfigSnapshot, EntryView};
use crate::election::Role;
use vstd::prelude::*;
use vstd::string::StringSliceAdditionalSpecFns;
use vstd::utf8::encode_utf8;

verus! {

/// Starting value of the 64-bit FNV-1a content hash.
pub const FNV_OFFSET: u64 = 0xcbf29ce484222325;

/// Multiplier of the 64-bit FNV-1a content hash.
pub const FNV_PRIME: u64 = 0x100000001b3;

/// One FNV-1a step: fold the next byte into the running hash.
pub open spec fn fnv_step(h: u64, b: u8) -> u64 {
    vstd::wrapping::u64_specs::wrapping_mul(h ^ (b as u64), FNV_PRIME)
}

/// The 64-bit FNV-1a hash of a byte sequence.
pub open spec fn fnv64(bytes: Seq<u8>) -> u64
    decreases bytes.len(),
{
    if bytes.len() == 0 {
        FNV_OFFSET
    } else {
        fnv_step(fnv64(bytes.drop_last()), bytes.last())
    }
}

/// Executable FNV-1a over a byte vector.
#[verifier::loop_isolation(false)]
pub fn fnv64_hash(bytes: &Vec<u8>) -> (h: u64)
    ensures
        h == fnv64(bytes@),
{
    let n = bytes.len();
    let mut h: u64 = FNV_OFFSET;
    let mut i: usize = 0;
    while i < n
        invariant
            i <= n,
            h == fnv64(bytes@.take(i as int)),
        decreases n - i,
    {
        h = (h ^ (bytes[i] as u64)).wrapping_mul(FNV_PRIME);
        proof {
            assert(bytes@.take(i + 1).drop_last() =~= bytes@.take(i as int));
            assert(bytes@.take(i + 1).last() == bytes@[i as int]);
        }
        i += 1;
    }
    proof {
        assert(bytes@.take(n as int) =~= bytes@);
    }
    h
}

/// Append a string's UTF-8 bytes to the artifact under construction.
#[verifier::loop_isolation(false)]
fn push_str_bytes(out: &mut Vec<u8>, s: &str)
    ensures
        final(out)@ == old(out)@ + s.spec_bytes(),
{
    let b = s.as_bytes();
    let n = b.len();
    let mut i: usize = 0;
    while i < n
        invariant
            i <= n,
            n == b@.len(),
            b@ == s.spec_bytes(),
            out@ == old(out)@ + b@.take(i as int),
        decreases n - i,
    {
        out.push(b[i]);
        proof {
            assert(b@.take(i + 1) =~= b@.take(i as int).push(b@[i as int]));
            assert(old(out)@ + b@.take(i + 1) =~= (old(out)@ + b@.take(i as int)).push(
                b@[i as int],
            ));
        }
        i += 1;
    }
    proof {
        assert(b@.take(n as int) =~= b@);
    }
}

/// The template the renderer materializes: the configuration keys the
/// managed service requires, in output order. The template language itself
/// is outside this engine; a template is modelled by the keys it reads.
pub struct Template {
    pub keys: Vec<String>,
}

impl View for Template {
    type V = Seq<Seq<char>>;

    open spec fn view(&self) -> Seq<Seq<char>> {
        self.keys@.map_values(|k: String| k@)
    }
}

/// The renderer's output: the materialized bytes and their content hash.
#[derive(Debug)]
pub struct RenderedArtifact {
    pub content: Vec<u8>,
    pub hash: u64,
}

/// A failed render, naming the required key the snapshot lacks.
#[derive(Debug)]
pub struct RenderError {
    pub key: String,
}

/// The characters a role renders as.
pub open spec fn role_name(role: Role) -> Seq<char> {
    match role {
        Role::Leader => "leader"@,
        Role::Follower => "follower"@,
        Role::Candidate => "candidate"@,
    }
}

/// The artifact's header line: the role the peer runs under.
pub open spec fn role_line(role: Role) -> Seq<u8> {
    encode_utf8("role: "@) + encode_utf8(role_name(role)) + encode_utf8("\n"@)
}

/// One rendered configuration line.
pub open spec fn config_line(k: Seq<char>, v: Seq<char>) -> Seq<u8> {
    encode_utf8(k) + encode_utf8(": "@) + encode_utf8(v) + encode_utf8("\n"@)
}

/// The rendered lines of the given keys, in template order.
pub open spec fn config_lines(keys: Seq<Seq<char>>, snap: Seq<EntryView>) -> Seq<u8>
    decreases keys.len(),
{
    if keys.len() == 0 {
        Seq::<u8>::empty()
    } else {
        config_line(keys[0], held_val(snap, keys[0])->Some_0) + config_lines(
            keys.drop_first(),
            snap,
        )
    }
}

/// The whole artifact: header line, then one line per template key.
pub open spec fn render_content(keys: Seq<Seq<char>>, snap: Seq<EntryView>, role: Role) -> Seq<
    u8,
> {
    role_line(role) + config_lines(keys, snap)
}

/// Every template key is present in the snapshot.
pub open spec fn all_keys_present(keys: Seq<Seq<char>>, snap: Seq<EntryView>) -> bool {
    forall|i: int| 0 <= i < keys.len() ==> has_key(snap, #[trigger] keys[i])
}

/// Index of the first template key the snapshot lacks, or -1.
pub open spec fn first_missing(keys: Seq<Seq<char>>, snap: Seq<EntryView>) -> int
    decreases keys.len(),
{
    if keys.len() == 0 {
        -1
    } else if !has_key(snap, keys[0]) {
        0
    } else {
        let rest = first_missing(keys.drop_first(), snap);
        if rest == -1 {
            -1
        } else {
            rest + 1
        }
    }
}

proof fn lemma_first_missing_at(keys: Seq<Seq<char>>, snap: Seq<EntryView>, i: int)
    requires
        0 <= i < keys.len(),
        !has_key(snap, keys[i]),
        forall|j: int| 0 <= j < i ==> has_key(snap, #[trigger] keys[j]),
    ensures
        first_missing(keys, snap) == i,
    decreases keys.len(),
{
    if i > 0 {
        assert forall|j: int| 0 <= j < i - 1 implies has_key(snap, #[trigger] keys.drop_first()[j])
            by {
            assert(keys.drop_first()[j] == keys[j + 1]);
        }
        assert(keys.drop_first()[i - 1] == keys[i]);
        lemma_first_missing_at(keys.drop_first(), snap, i - 1);
    }
}

/// Extending the rendered keys by one appends exactly that key's line.
proof fn lemma_config_lines_snoc(keys: Seq<Seq<char>>, k: Seq<char>, snap: Seq<EntryView>)
    ensures
        config_lines(keys.push(k), snap) == config_lines(keys, snap) + config_line(
            k,
            held_val(snap, k)->Some_0,
        ),
    decreases keys.len(),
{
    let t = keys.push(k);
    let line = config_line(k, held_val(snap, k)->Some_0);
    if keys.len() == 0 {
        assert(t[0] == k);
        assert(t.drop_first() =~= Seq::<Seq<char>>::empty());
        assert(config_lines(t.drop_first(), snap) == Seq::<u8>::empty());
        assert(config_lines(t, snap) == line + Seq::<u8>::empty());
        assert(line + Seq::<u8>::empty() =~= line);
        assert(config_lines(keys, snap) + line =~= line);
    } else {
        let head = config_line(keys[0], held_val(snap, keys[0])->Some_0);
        assert(t[0] == keys[0]);
        assert(t.drop_first() =~= keys.drop_first().push(k));
        lemma_config_lines_snoc(keys.drop_first(), k, snap);
        assert(config_lines(t, snap) == head + (config_lines(keys.drop_first(), snap) + line));
        assert(config_lines(keys, snap) == head + config_lines(keys.drop_first(), snap));
        assert(head + (config_lines(keys.drop_first(), snap) + line) =~= (head + config_lines(
            keys.drop_first(),
            snap,
        )) + line);
    }
}

/// The executable role header text.
pub fn role_name_str(role: Role) -> (s: &'static str)
    ensures
        s@ == role_name(role),
{
    match role {
        Role::Leader => "leader",
        Role::Follower => "follower",
        Role::Candidate => "candidate",
    }
}

/// Render the snapshot for the given role.
///
/// On success the artifact's bytes are exactly `render_content` of the
/// template keys, the snapshot's held values and the role, and the hash is
/// the FNV-1a hash of those bytes, so rendering is deterministic in its
/// inputs. The render succeeds if and only if every template key is present;
/// otherwise nothing is produced and the error names the first missing key.
#[verifier::loop_isolation(false)]
pub fn render(template: &Template, snap: &ConfigSnapshot, role: Role) -> (r: Result<
    RenderedArtifact,
    RenderError,
>)
    ensures
        match r {
            Ok(a) => {
                &&& all_keys_present(template@, snap@)
                &&& a.content@ == render_content(template@, snap@, role)
                &&& a.hash == fnv64(a.content@)
            },
            Err(e) => {
                &&& !all_keys_present(template@, snap@)
                &&& e.key@ == template@[first_missing(template@, snap@)]
            },
        },
{
    let mut content: Vec<u8> = Vec::new();
    push_str_bytes(&mut content, "role: ");
    push_str_bytes(&mut content, role_name_str(role));
    push_str_bytes(&mut content, "\n");
    proof {
        assert(content@ =~= role_line(role));
        assert(template@.take(0) =~= Seq::<Seq<char>>::empty());
        assert(content@ =~= role_line(role) + config_lines(template@.take(0), snap@));
    }
    let n = template.keys.len();
    let mut i: usize = 0;
    while i < n
        invariant
            i <= n,
            n == template@.len(),
            forall|j: int| 0 <= j < i ==> has_key(snap@, #[trigger] template@[j]),
            content@ == role_line(role) + config_lines(template@.take(i as int), snap@),
        decreases n - i,
    {
        let key = &template.keys[i];
        match snap.get(key) {
            Some(value) => {
                push_str_bytes(&mut content, key.as_str());
                push_str_bytes(&mut content, ": ");
                push_str_bytes(&mut content, value.as_str());
                push_str_bytes(&mut content, "\n");
                proof {
                    lemma_config_lines_snoc(template@.take(i as int), template@[i as int], snap@);
                    assert(template@.take(i + 1) =~= template@.take(i as int).push(
                        template@[i as int],
                    ));
                    assert(content@ =~= role_line(role) + config_lines(
                        template@.take(i + 1),
                        snap@,
                    ));
                }
            },
            None => {
                proof {
                    lemma_first_missing_at(template@, snap@, i as int);
                }
                return Err(RenderError { key: key.clone() });
            },
        }
        i += 1;
    }
    proof {
        assert(template@.take(n as int) =~= template@);
    }
    let hash = fnv64_hash(&content);
    Ok(RenderedArtifact { content, hash })
}

/// Render determinism: the rendered bytes, and therefore the content hash,
/// are a pure function of the template keys, the snapshot content, and the
/// role; two renders of identical inputs agree exactly.
pub proof fn lemma_render_deterministic(
    keys1: Seq<Seq<char>>,
    keys2: Seq<Seq<char>>,
    s1: Seq<EntryView>,
    s2: Seq<EntryView>,
    role1: Role,
    role2: Role,
)
    requires
        keys1 == keys2,
        s1 == s2,
        role1 == role2,
    ensures
        render_content(keys1, s1, role1) == render_content(keys2, s2, role2),
        fnv64(render_content(keys1, s1, role1)) == fnv64(render_content(keys2, s2, role2)),
{
}

} // verus!
