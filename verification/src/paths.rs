//! Basenames of object keys.
//!
//! Objects already present in the target repository are compared with
//! manifest artifacts by the final path segment of their key alone, so the
//! inventory is a collection of basenames. Keys are handled as UTF-8 bytes;
//! the separator byte `/` never occurs inside a multi-byte UTF-8 sequence,
//! so splitting on it at the byte level agrees with splitting on the
//! character.

use vstd::prelude::*;
use vstd::string::StringExecFns;
use vstd::utf8::{encode_scalar, encode_utf8};

verus! {

/// The path separator byte, `'/'`.
pub const SLASH: u8 = 47;

/// The final path segment of `k`: everything after the last separator, or
/// all of `k` when it holds no separator.
pub open spec fn basename_spec(k: Seq<u8>) -> Seq<u8>
    decreases k.len(),
{
    if k.len() == 0 {
        k
    } else if k.last() == SLASH {
        Seq::<u8>::empty()
    } else {
        basename_spec(k.drop_last()).push(k.last())
    }
}

/// A key with no separator is its own basename.
pub proof fn lemma_basename_no_slash(k: Seq<u8>)
    requires
        forall|i: int| 0 <= i < k.len() ==> k[i] != SLASH,
    ensures
        basename_spec(k) == k,
    decreases k.len(),
{
    if k.len() > 0 {
        lemma_basename_no_slash(k.drop_last());
        assert(basename_spec(k) =~= k);
    } else {
        assert(basename_spec(k) =~= k);
    }
}

/// Prepending a directory leaves the basename alone: the basename of
/// `dir + "/" + name` is `name`, whenever `name` holds no separator.
pub proof fn lemma_basename_append(dir: Seq<u8>, name: Seq<u8>)
    requires
        forall|i: int| 0 <= i < name.len() ==> name[i] != SLASH,
    ensures
        basename_spec(dir + seq![SLASH] + name) == name,
    decreases name.len(),
{
    let k = dir + seq![SLASH] + name;
    if name.len() == 0 {
        assert(k.last() == SLASH);
        assert(basename_spec(k) =~= name);
    } else {
        lemma_basename_append(dir, name.drop_last());
        assert(k.drop_last() =~= dir + seq![SLASH] + name.drop_last());
        assert(basename_spec(k) =~= name);
    }
}

/// UTF-8 encoding distributes over concatenation.
pub proof fn lemma_encode_utf8_append(a: Seq<char>, b: Seq<char>)
    ensures
        encode_utf8(a + b) == encode_utf8(a) + encode_utf8(b),
    decreases a.len(),
{
    if a.len() == 0 {
        assert(a + b =~= b);
        assert(encode_utf8(a) + encode_utf8(b) =~= encode_utf8(b));
    } else {
        assert((a + b).drop_first() =~= a.drop_first() + b);
        assert((a + b)[0] == a[0]);
        lemma_encode_utf8_append(a.drop_first(), b);
        assert(encode_utf8(a + b) =~= encode_utf8(a) + encode_utf8(b));
    }
}

/// No character but `/` itself encodes to a byte sequence holding the
/// separator byte: a one-byte encoding is the character's own value, and
/// every byte of a longer encoding has its high bit set.
pub proof fn lemma_encode_utf8_no_slash(s: Seq<char>)
    requires
        forall|i: int| 0 <= i < s.len() ==> s[i] != '/',
    ensures
        forall|i: int| 0 <= i < encode_utf8(s).len() ==> encode_utf8(s)[i] != SLASH,
    decreases s.len(),
{
    if s.len() > 0 {
        let c = s[0] as u32;
        assert(s[0] != '/');
        assert(c != 47) by {
            vstd::utf8::char_u32_cast(s[0], c);
            vstd::utf8::char_u32_cast('/', '/' as u32);
            if c == 47 {
                assert(s[0] == (47u32 as char));
                assert('/' == (47u32 as char));
            }
        }
        assert(forall|v: u32| v <= 0x7F && v != 47 ==> ((v & 0x7F) as u8) != 47) by (bit_vector);
        assert(forall|b: u8| (0x80u8 | b) != 47) by (bit_vector);
        assert(forall|b: u8| (0xC0u8 | b) != 47) by (bit_vector);
        assert(forall|b: u8| (0xE0u8 | b) != 47) by (bit_vector);
        assert(forall|b: u8| (0xF0u8 | b) != 47) by (bit_vector);
        assert(forall|i: int| 0 <= i < encode_scalar(c).len() ==> encode_scalar(c)[i] != SLASH);
        lemma_encode_utf8_no_slash(s.drop_first());
        assert forall|i: int| 0 <= i < encode_utf8(s).len() implies encode_utf8(s)[i]
            != SLASH by {
            if i < encode_scalar(c).len() {
                assert(encode_utf8(s)[i] == encode_scalar(c)[i]);
            } else {
                assert(encode_utf8(s)[i] == encode_utf8(s.drop_first())[i - encode_scalar(
                    c,
                ).len()]);
            }
        }
    }
}

/// A stored artifact key `prefix + "/" + path` lists back as exactly the
/// artifact filename's bytes, whatever the prefix, as long as the
/// filename holds no separator.
pub proof fn lemma_object_key_basename(prefix: Seq<char>, path: Seq<char>)
    requires
        forall|i: int| 0 <= i < path.len() ==> path[i] != '/',
    ensures
        basename_spec(encode_utf8(prefix + "/"@ + path)) == encode_utf8(path),
{
    reveal_strlit("/");
    assert("/"@ =~= seq!['/']);
    lemma_encode_utf8_append(prefix + "/"@, path);
    lemma_encode_utf8_append(prefix, "/"@);
    assert(seq!['/'].drop_first() =~= Seq::<char>::empty());
    assert(encode_utf8(Seq::<char>::empty()) =~= Seq::<u8>::empty());
    assert(('/' as u32) == 47);
    assert(((47u32 & 0x7F) as u8) == 47) by (bit_vector);
    assert(encode_scalar('/' as u32) =~= seq![SLASH]);
    assert(encode_utf8(seq!['/']) =~= seq![SLASH]);
    assert(encode_utf8("/"@) =~= seq![SLASH]);
    lemma_encode_utf8_no_slash(path);
    assert(encode_utf8(prefix + "/"@ + path) =~= encode_utf8(prefix) + seq![SLASH] + encode_utf8(
        path,
    ));
    lemma_basename_append(encode_utf8(prefix), encode_utf8(path));
}

/// Extracts the basename of an object key: the bytes after the last `/`.
pub fn basename(key: &[u8]) -> (r: Vec<u8>)
    ensures
        r@ == basename_spec(key@),
{
    let mut cut: usize = key.len();
    while cut > 0 && key[cut - 1] != SLASH
        invariant
            0 <= cut <= key.len(),
            forall|i: int| cut <= i < key@.len() ==> key@[i] != SLASH,
        decreases cut,
    {
        cut = cut - 1;
    }
    let mut r: Vec<u8> = Vec::new();
    let mut i: usize = cut;
    while i < key.len()
        invariant
            cut <= i <= key@.len(),
            forall|j: int| cut <= j < key@.len() ==> key@[j] != SLASH,
            cut > 0 ==> key@[cut - 1] == SLASH,
            r@ == key@.subrange(cut as int, i as int),
        decreases key@.len() - i,
    {
        let b = key[i];
        r.push(b);
        assert(r@ =~= key@.subrange(cut as int, i + 1 as int));
        i = i + 1;
    }
    proof {
        assert(r@ =~= key@.subrange(cut as int, key@.len() as int));
        lemma_basename_suffix(key@, cut as int);
    }
    r
}

/// The relative URL of one build's metadata below the stream base:
/// `<id>/<arch>/meta.json`.
pub fn meta_rel_path(id: &String, arch: &String) -> (r: String)
    ensures
        r@ == id@ + "/"@ + arch@ + "/meta.json"@,
{
    let mut s = id.clone();
    s.append("/");
    s.append(arch.as_str());
    s.append("/meta.json");
    proof {
        assert(s@ =~= id@ + "/"@ + arch@ + "/meta.json"@);
    }
    s
}

/// The relative URL of one artifact below the stream base:
/// `<buildid>/<arch>/<path>`.
pub fn artifact_rel_path(buildid: &String, arch: &String, path: &String) -> (r: String)
    ensures
        r@ == buildid@ + "/"@ + arch@ + "/"@ + path@,
{
    let mut s = buildid.clone();
    s.append("/");
    s.append(arch.as_str());
    s.append("/");
    s.append(path.as_str());
    proof {
        assert(s@ =~= buildid@ + "/"@ + arch@ + "/"@ + path@);
    }
    s
}

/// The storage key of an artifact: `<prefix>/<path>`.
pub fn object_key(prefix: &String, path: &String) -> (r: String)
    ensures
        r@ == prefix@ + "/"@ + path@,
{
    let mut s = prefix.clone();
    s.append("/");
    s.append(path.as_str());
    proof {
        assert(s@ =~= prefix@ + "/"@ + path@);
    }
    s
}

/// The storage key of the persisted sync-state marker:
/// `<prefix>/cosa-rojig-repoize-state.json`.
pub fn state_key(prefix: &String) -> (r: String)
    ensures
        r@ == prefix@ + "/cosa-rojig-repoize-state.json"@,
{
    let mut s = prefix.clone();
    s.append("/cosa-rojig-repoize-state.json");
    s
}

/// The basename of `k` is the suffix that starts right after the last
/// separator (`cut == 0` meaning that `k` holds none).
proof fn lemma_basename_suffix(k: Seq<u8>, cut: int)
    requires
        0 <= cut <= k.len(),
        forall|i: int| cut <= i < k.len() ==> k[i] != SLASH,
        cut > 0 ==> k[cut - 1] == SLASH,
    ensures
        basename_spec(k) == k.subrange(cut, k.len() as int),
    decreases k.len(),
{
    if cut == 0 {
        lemma_basename_no_slash(k);
        assert(basename_spec(k) =~= k.subrange(0, k.len() as int));
    } else if cut == k.len() {
        assert(k.last() == SLASH);
        assert(basename_spec(k) =~= k.subrange(cut, k.len() as int));
    } else {
        assert(k.last() != SLASH);
        lemma_basename_suffix(k.drop_last(), cut);
        assert(k.drop_last().subrange(cut, k.drop_last().len() as int)
            =~= k.subrange(cut, k.len() - 1));
        assert(basename_spec(k) =~= k.subrange(cut, k.len() as int));
    }
}

} // verus!
