//! The explicit cross-process cache of compile artifacts: the framing of a
//! stored artifact and the deterministic trimming policy.
//!
//! A stored artifact is an envelope: the artifact schema line, the compile
//! key schema line and the key's fingerprint line, then the payload's
//! fingerprint and a newline, then the payload. An envelope whose header does
//! not match the key, or whose payload fingerprint does not match, is a cache
//! miss, so stale or corrupt bytes are never taken for an artifact.

use vstd::prelude::*;
use crate::sorting::{is_stable_sort_of, stable_sort_by_key};
use crate::text::{chars_of, owned, push_str, str_eq};

verus! {

/// An explicit cache of compile artifacts across processes, rooted at a directory.
#[derive(Debug)]
pub struct ArtifactCache {
    root: std::path::PathBuf,
}

impl ArtifactCache {
    /// The cache's root directory.
    pub closed spec fn spec_root(&self) -> std::path::PathBuf {
        self.root
    }

    /// A cache rooted at `root`.
    pub fn new(root: std::path::PathBuf) -> (r: Self)
        ensures
            r.spec_root() == root,
    {
        ArtifactCache { root }
    }

    /// The cache's root directory.
    pub fn root(&self) -> (r: &std::path::PathBuf)
        ensures
            *r == self.spec_root(),
    {
        &self.root
    }
}

/// The schema line of an artifact envelope.
pub open spec fn artifact_schema() -> Seq<char> {
    "lsharp-compile-artifact-v1"@
}

/// The schema line of a compile cache key.
pub open spec fn key_schema() -> Seq<char> {
    "lsharp-compile-key-v1"@
}

/// The header text of the envelope for a key fingerprint.
pub open spec fn envelope_header_text(key_fingerprint: Seq<char>) -> Seq<char> {
    artifact_schema() + seq!['\n'] + key_schema() + seq!['\n'] + key_fingerprint + seq!['\n']
}

/// The header bytes of the envelope for a key fingerprint.
pub open spec fn envelope_header(key_fingerprint: Seq<char>) -> Seq<u8> {
    vstd::utf8::encode_utf8(envelope_header_text(key_fingerprint))
}

/// The newline byte.
pub open spec fn newline_byte() -> u8 {
    10u8
}

/// The envelope that stores `payload` under a key, with the payload's digest.
pub open spec fn sealed_envelope(key_fingerprint: Seq<char>, digest: Seq<u8>, payload: Seq<u8>) -> Seq<u8> {
    envelope_header(key_fingerprint) + digest + seq![newline_byte()] + payload
}

/// The first position of byte `b` in `s`, if any.
pub open spec fn find_byte(s: Seq<u8>, b: u8) -> Option<int>
    decreases s.len(),
{
    if s.len() == 0 {
        None
    } else if s[0] == b {
        Some(0)
    } else {
        match find_byte(s.drop_first(), b) {
            Some(i) => Some(i + 1),
            None => None,
        }
    }
}

/// The digest and payload of an envelope read under a key, or `None` when
/// the header is not that key's or no newline ends the digest.
pub open spec fn opened_envelope(bytes: Seq<u8>, key_fingerprint: Seq<char>) -> Option<(Seq<u8>, Seq<u8>)> {
    let header = envelope_header(key_fingerprint);
    if header.len() <= bytes.len() && bytes.take(header.len() as int) == header {
        let rest = bytes.skip(header.len() as int);
        match find_byte(rest, newline_byte()) {
            Some(i) => Some((rest.take(i), rest.skip(i + 1))),
            None => None,
        }
    } else {
        None
    }
}

/// The header bytes of the envelope for a key fingerprint.
pub fn envelope_header_bytes(key_fingerprint: &str) -> (r: Vec<u8>)
    ensures
        r@ == envelope_header(key_fingerprint@),
{
    let mut text = owned("lsharp-compile-artifact-v1");
    push_str(&mut text, "\n");
    push_str(&mut text, "lsharp-compile-key-v1");
    push_str(&mut text, "\n");
    push_str(&mut text, key_fingerprint);
    push_str(&mut text, "\n");
    proof {
        reveal_strlit("\n");
        assert(text@ =~= envelope_header_text(key_fingerprint@));
    }
    text.as_str().as_bytes_vec()
}

/// The envelope that stores `payload` under a key: the header, the payload's
/// digest, a newline, and the payload.
pub fn seal_envelope(key_fingerprint: &str, digest: &[u8], payload: &[u8]) -> (r: Vec<u8>)
    ensures
        r@ == sealed_envelope(key_fingerprint@, digest@, payload@),
{
    let mut bytes = envelope_header_bytes(key_fingerprint);
    let ghost header = bytes@;
    extend_bytes(&mut bytes, digest);
    bytes.push(10u8);
    extend_bytes(&mut bytes, payload);
    assert(bytes@ =~= header + digest@ + seq![newline_byte()] + payload@);
    bytes
}

fn extend_bytes(dst: &mut Vec<u8>, src: &[u8])
    ensures
        final(dst)@ == old(dst)@ + src@,
{
    let mut i: usize = 0;
    while i < src.len()
        invariant
            i <= src.len(),
            dst@ == old(dst)@ + src@.take(i as int),
        decreases src.len() - i,
    {
        dst.push(src[i]);
        assert(dst@ =~= old(dst)@ + src@.take(i + 1));
        i = i + 1;
    }
    assert(src@.take(src.len() as int) =~= src@);
}

fn bytes_range(src: &[u8], lo: usize, hi: usize) -> (r: Vec<u8>)
    requires
        lo <= hi <= src.len(),
    ensures
        r@ == src@.subrange(lo as int, hi as int),
{
    let mut r: Vec<u8> = Vec::new();
    let mut i = lo;
    while i < hi
        invariant
            lo <= i <= hi,
            hi <= src.len(),
            r@ == src@.subrange(lo as int, i as int),
        decreases hi - i,
    {
        r.push(src[i]);
        i = i + 1;
    }
    r
}

/// A found position holds the byte, and nothing before it does.
proof fn lemma_find_byte(s: Seq<u8>, b: u8, k: int)
    requires
        0 <= k <= s.len(),
        forall|j: int| 0 <= j < k ==> s[j] != b,
        k == s.len() || s[k] == b,
    ensures
        find_byte(s, b) == if k == s.len() {
            None
        } else {
            Some(k)
        },
    decreases k,
{
    if k > 0 {
        let d = s.drop_first();
        assert forall|j: int| 0 <= j < k - 1 implies d[j] != b by {
            assert(d[j] == s[j + 1]);
        }
        if k < s.len() {
            assert(d[k - 1] == s[k]);
        }
        lemma_find_byte(d, b, k - 1);
    }
}

/// The digest and payload of an envelope read under a key, or `None` when
/// the header is not that key's or no newline ends the digest.
pub fn open_envelope(bytes: &[u8], key_fingerprint: &str) -> (r: Option<(Vec<u8>, Vec<u8>)>)
    ensures
        match r {
            Some((d, p)) => opened_envelope(bytes@, key_fingerprint@) == Some((d@, p@)),
            None => opened_envelope(bytes@, key_fingerprint@) is None,
        },
{
    let header = envelope_header_bytes(key_fingerprint);
    if header.len() > bytes.len() {
        return None;
    }
    let mut i: usize = 0;
    while i < header.len()
        invariant
            i <= header.len(),
            header.len() <= bytes.len(),
            header@ == envelope_header(key_fingerprint@),
            forall|j: int| 0 <= j < i ==> bytes@[j] == header@[j],
        decreases header.len() - i,
    {
        if bytes[i] != header[i] {
            assert(bytes@.take(header@.len() as int)[i as int] != header@[i as int]);
            return None;
        }
        i = i + 1;
    }
    assert(bytes@.take(header@.len() as int) =~= header@);
    let start = header.len();
    let mut k = start;
    while k < bytes.len() && bytes[k] != 10u8
        invariant
            start <= k <= bytes.len(),
            forall|j: int| start <= j < k ==> bytes@[j] != 10u8,
        decreases bytes.len() - k,
    {
        k = k + 1;
    }
    let ghost rest = bytes@.skip(start as int);
    proof {
        assert forall|j: int| 0 <= j < k - start implies rest[j] != newline_byte() by {
            assert(rest[j] == bytes@[start + j]);
        }
        if k < bytes.len() {
            assert(rest[k - start] == bytes@[k as int]);
        }
        lemma_find_byte(rest, newline_byte(), k - start);
    }
    if k == bytes.len() {
        return None;
    }
    let digest = bytes_range(bytes, start, k);
    let payload = bytes_range(bytes, k + 1, bytes.len());
    assert(digest@ =~= rest.take(k - start));
    assert(payload@ =~= rest.skip(k - start + 1));
    Some((digest, payload))
}

/// Whether an envelope's digest is the payload's fingerprint text.
pub fn digest_matches(digest: &[u8], payload_fingerprint: &str) -> (r: bool)
    ensures
        r == (digest@ == vstd::utf8::encode_utf8(payload_fingerprint@)),
{
    let expected = payload_fingerprint.as_bytes_vec();
    if expected.len() != digest.len() {
        return false;
    }
    let mut i: usize = 0;
    while i < digest.len()
        invariant
            i <= digest.len(),
            expected.len() == digest.len(),
            expected@ == vstd::utf8::encode_utf8(payload_fingerprint@),
            forall|j: int| 0 <= j < i ==> digest@[j] == expected@[j],
        decreases digest.len() - i,
    {
        if digest[i] != expected[i] {
            assert(digest@[i as int] != expected@[i as int]);
            return false;
        }
        i = i + 1;
    }
    assert(digest@ =~= expected@);
    true
}

/// What a stored envelope gives back when read under the key it was stored
/// under: the digest and the payload, whenever the digest holds no newline.
pub proof fn law_envelope_roundtrip(key_fingerprint: Seq<char>, digest: Seq<u8>, payload: Seq<u8>)
    requires
        !digest.contains(newline_byte()),
    ensures
        opened_envelope(sealed_envelope(key_fingerprint, digest, payload), key_fingerprint) == Some(
            (digest, payload),
        ),
{
    let header = envelope_header(key_fingerprint);
    let bytes = sealed_envelope(key_fingerprint, digest, payload);
    assert(bytes.take(header.len() as int) =~= header);
    let rest = bytes.skip(header.len() as int);
    assert(rest =~= digest + seq![newline_byte()] + payload);
    assert forall|j: int| 0 <= j < digest.len() implies rest[j] != newline_byte() by {
        assert(rest[j] == digest[j]);
    }
    assert(rest[digest.len() as int] == newline_byte());
    lemma_find_byte(rest, newline_byte(), digest.len() as int);
    assert(rest.take(digest.len() as int) =~= digest);
    assert(rest.skip(digest.len() as int + 1) =~= payload);
}


/// Two ASCII characters with the same byte are the same character.
proof fn lemma_ascii_byte_injective(a: char, b: char)
    requires
        '\0' <= a <= '\u{7f}',
        '\0' <= b <= '\u{7f}',
        a as u8 == b as u8,
    ensures
        a == b,
{
    assert(a as u32 == b as u32);
    vstd::utf8::char_u32_cast(a, a as u32);
    vstd::utf8::char_u32_cast(b, b as u32);
}

/// The header text of an ASCII key fingerprint is ASCII.
proof fn lemma_header_ascii(key_fingerprint: Seq<char>)
    requires
        vstd::utf8::is_ascii_chars(key_fingerprint),
    ensures
        vstd::utf8::is_ascii_chars(envelope_header_text(key_fingerprint)),
{
    reveal_strlit("lsharp-compile-artifact-v1");
    reveal_strlit("lsharp-compile-key-v1");
    let t = envelope_header_text(key_fingerprint);
    let n = artifact_schema().len() + 1 + key_schema().len() + 1;
    assert forall|i: int| 0 <= i < t.len() implies '\0' <= #[trigger] t[i] <= '\u{7f}' by {
        if i >= n && i < n + key_fingerprint.len() {
            assert(t[i] == key_fingerprint[i - n]);
        }
    }
}

/// A stored envelope read under another key is a cache miss, for key
/// fingerprints that are ASCII text without newlines.
pub proof fn law_envelope_key_mismatch(
    stored_key: Seq<char>,
    read_key: Seq<char>,
    digest: Seq<u8>,
    payload: Seq<u8>,
)
    requires
        stored_key != read_key,
        vstd::utf8::is_ascii_chars(stored_key),
        vstd::utf8::is_ascii_chars(read_key),
        !stored_key.contains('\n'),
        !read_key.contains('\n'),
    ensures
        opened_envelope(sealed_envelope(stored_key, digest, payload), read_key) is None,
{
    let t1 = envelope_header_text(stored_key);
    let t2 = envelope_header_text(read_key);
    lemma_header_ascii(stored_key);
    lemma_header_ascii(read_key);
    vstd::utf8::is_ascii_chars_encode_utf8(t1);
    vstd::utf8::is_ascii_chars_encode_utf8(t2);
    let h1 = envelope_header(stored_key);
    let h2 = envelope_header(read_key);
    let bytes = sealed_envelope(stored_key, digest, payload);
    let n = artifact_schema().len() + 1 + key_schema().len() + 1;
    if h2.len() <= bytes.len() && bytes.take(h2.len() as int) == h2 {
        let m = if t1.len() <= t2.len() {
            t1.len()
        } else {
            t2.len()
        };
        assert forall|i: int| 0 <= i < m implies t1[i] == t2[i] by {
            assert(bytes[i] == h1[i]);
            assert(bytes.take(h2.len() as int)[i] == h2[i]);
            lemma_ascii_byte_injective(t1[i], t2[i]);
        }
        if stored_key.len() == read_key.len() {
            assert forall|j: int| 0 <= j < stored_key.len() implies stored_key[j] == read_key[j] by {
                assert(t1[n + j] == stored_key[j]);
                assert(t2[n + j] == read_key[j]);
            }
            assert(stored_key =~= read_key);
        } else if read_key.len() < stored_key.len() {
            let k = read_key.len() as int;
            assert(t2[n + k] == '\n');
            assert(t1[n + k] == stored_key[k]);
        } else {
            let k = stored_key.len() as int;
            assert(t1[n + k] == '\n');
            assert(t2[n + k] == read_key[k]);
        }
    }
}


// ---------------------------------------------------------------------------
// Trimming.

/// The position of the last `'.'` in `s`, if any.
pub open spec fn last_dot(s: Seq<char>) -> Option<int>
    decreases s.len(),
{
    if s.len() == 0 {
        None
    } else if s.last() == '.' {
        Some(s.len() - 1)
    } else {
        last_dot(s.drop_last())
    }
}

/// The extension of a file name, as `Path::extension` gives it: what follows
/// the last `'.'`, unless that dot begins the name or there is none.
pub open spec fn file_extension(name: Seq<char>) -> Option<Seq<char>> {
    match last_dot(name) {
        Some(i) => if i > 0 {
            Some(name.skip(i + 1))
        } else {
            None
        },
        None => None,
    }
}

/// Whether a file name is that of a stored artifact.
pub open spec fn is_artifact_file(name: Seq<char>) -> bool {
    file_extension(name) == Some("artifact"@)
}

/// The artifact file names among `names`, in order.
pub open spec fn artifact_files(names: Seq<String>) -> Seq<String>
    decreases names.len(),
{
    if names.len() == 0 {
        Seq::empty()
    } else {
        let init = artifact_files(names.drop_last());
        if is_artifact_file(names.last()@) {
            init.push(names.last())
        } else {
            init
        }
    }
}

/// How many of `count` entries go to keep at most `max_entries`.
pub open spec fn excess(count: int, max_entries: int) -> int {
    if count > max_entries {
        count - max_entries
    } else {
        0
    }
}

fn last_dot_exec(chars: &Vec<char>) -> (r: Option<usize>)
    ensures
        match r {
            Some(i) => last_dot(chars@) == Some(i as int) && i < chars.len(),
            None => last_dot(chars@) is None,
        },
{
    let mut k = chars.len();
    assert(chars@.take(k as int) =~= chars@);
    while k > 0 && chars[k - 1] != '.'
        invariant
            k <= chars.len(),
            last_dot(chars@) == last_dot(chars@.take(k as int)),
        decreases k,
    {
        assert(chars@.take(k as int).drop_last() =~= chars@.take(k - 1));
        k = k - 1;
    }
    if k == 0 {
        assert(chars@.take(0) =~= Seq::<char>::empty());
        None
    } else {
        Some(k - 1)
    }
}

/// Whether a file name is that of a stored artifact.
pub fn is_artifact_file_name(name: &str) -> (r: bool)
    ensures
        r == is_artifact_file(name@),
{
    let chars = chars_of(name);
    match last_dot_exec(&chars) {
        Some(i) => {
            if i == 0 {
                false
            } else {
                let ext = crate::text::string_from_range(&chars, i + 1, chars.len());
                assert(ext@ =~= chars@.skip(i + 1));
                str_eq(ext.as_str(), "artifact")
            }
        },
        None => false,
    }
}

/// The artifact files to delete to keep at most `max_entries` of them: of
/// the artifact file names among `file_names`, in code-point order, as many
/// of the first ones as exceed the limit.
pub fn artifacts_to_trim(file_names: Vec<String>, max_entries: usize) -> (r: Vec<String>)
    ensures
        exists|sorted: Seq<String>|
            is_stable_sort_of(sorted, artifact_files(file_names@)) && r@ == sorted.take(
                excess(artifact_files(file_names@).len() as int, max_entries as int),
            ),
{
    let ghost names = file_names@;
    let mut artifacts: Vec<String> = Vec::new();
    let mut rest = file_names;
    let n = rest.len();
    let mut i: usize = 0;
    assert(names.skip(0) =~= names);
    while i < n
        invariant
            n == names.len(),
            i <= n,
            rest@ == names.skip(i as int),
            artifacts@ == artifact_files(names.take(i as int)),
        decreases n - i,
    {
        proof {
            assert(names.take(i + 1).drop_last() =~= names.take(i as int));
            assert(names.take(i + 1).last() == names[i as int]);
        }
        let name = rest.remove(0);
        assert(rest@ =~= names.skip(i + 1));
        if is_artifact_file_name(name.as_str()) {
            artifacts.push(name);
        }
        i = i + 1;
    }
    assert(names.take(n as int) =~= names);
    let count = artifacts.len();
    let sorted = stable_sort_by_key(artifacts);
    let mut sorted = sorted;
    let remove = if count > max_entries {
        count - max_entries
    } else {
        0
    };
    sorted.truncate(remove);
    sorted
}


/// The sum of `sizes`, saturating at `u64::MAX` at each step.
pub open spec fn saturating_total(sizes: Seq<u64>) -> int
    decreases sizes.len(),
{
    if sizes.len() == 0 {
        0
    } else {
        let t = saturating_total(sizes.drop_last()) + sizes.last();
        if t > u64::MAX {
            u64::MAX as int
        } else {
            t
        }
    }
}

/// A trim to a byte budget in progress: the total size of the artifacts
/// still present, the budget, and how many artifacts were removed.
///
/// The caller walks the artifacts in code-point order of their names; while
/// the trim is over budget it removes the next one and records it, and an
/// artifact that was already gone is not recorded.
pub struct ByteTrim {
    total: u64,
    max_bytes: u64,
    removed: usize,
}

impl ByteTrim {
    pub closed spec fn spec_total(&self) -> int {
        self.total as int
    }

    pub closed spec fn spec_max_bytes(&self) -> int {
        self.max_bytes as int
    }

    pub closed spec fn spec_removed(&self) -> int {
        self.removed as int
    }

    /// A trim of artifacts of the given sizes to `max_bytes`.
    pub fn new(sizes: &[u64], max_bytes: u64) -> (r: ByteTrim)
        ensures
            r.spec_total() == saturating_total(sizes@),
            r.spec_max_bytes() == max_bytes,
            r.spec_removed() == 0,
    {
        let mut total: u64 = 0;
        let mut i: usize = 0;
        while i < sizes.len()
            invariant
                i <= sizes.len(),
                total == saturating_total(sizes@.take(i as int)),
            decreases sizes.len() - i,
        {
            assert(sizes@.take(i + 1).drop_last() =~= sizes@.take(i as int));
            total = total.saturating_add(sizes[i]);
            i = i + 1;
        }
        assert(sizes@.take(sizes.len() as int) =~= sizes@);
        ByteTrim { total, max_bytes, removed: 0 }
    }

    /// Whether the artifacts still present exceed the budget.
    pub fn over_budget(&self) -> (r: bool)
        ensures
            r == (self.spec_total() > self.spec_max_bytes()),
    {
        self.total > self.max_bytes
    }

    /// Records that an artifact of `size` bytes was removed.
    pub fn record_removal(&mut self, size: u64)
        requires
            old(self).spec_removed() < usize::MAX,
        ensures
            final(self).spec_total() == if old(self).spec_total() > size {
                old(self).spec_total() - size
            } else {
                0
            },
            final(self).spec_max_bytes() == old(self).spec_max_bytes(),
            final(self).spec_removed() == old(self).spec_removed() + 1,
    {
        self.total = self.total.saturating_sub(size);
        self.removed = self.removed + 1;
    }

    /// How many artifacts were removed.
    pub fn removed(&self) -> (r: usize)
        ensures
            r == self.spec_removed(),
    {
        self.removed
    }
}

} // verus!
