use vstd::prelude::*;
use crate::decimal::{decimal, lemma_decimal_injective, lemma_decimal_len, push_decimal};

verus! {

/// The version fields of a class file header.
#[derive(Debug, Clone, Copy, PartialEq, Eq, Structural)]
pub struct JavaClassVersion {
    pub major: u16,
    pub minor: u16,
}

/// Why a class file header could not be decoded.
#[derive(Debug, Clone, Copy, PartialEq, Eq, Structural)]
pub enum HeaderError {
    /// Fewer than eight bytes were available.
    MalformedArtifact,
    /// The first four bytes are not `CA FE BA BE`.
    InvalidMagicNumber,
}

/// The first four bytes are the class file magic number.
pub open spec fn has_magic(b: Seq<u8>) -> bool {
    &&& b.len() >= 4
    &&& b[0] == 0xCAu8
    &&& b[1] == 0xFEu8
    &&& b[2] == 0xBAu8
    &&& b[3] == 0xBEu8
}

/// A big-endian 16-bit value from two bytes.
pub open spec fn be16(hi: u8, lo: u8) -> u16 {
    (hi as int * 256 + lo as int) as u16
}

/// What the header held in the leading bytes `b` of a file decodes to.
pub open spec fn decode_spec(b: Seq<u8>) -> Result<JavaClassVersion, HeaderError> {
    if b.len() < 8 {
        Err(HeaderError::MalformedArtifact)
    } else if !has_magic(b) {
        Err(HeaderError::InvalidMagicNumber)
    } else {
        Ok(JavaClassVersion { major: be16(b[6], b[7]), minor: be16(b[4], b[5]) })
    }
}

/// Decodes the header at the start of a class file: the magic number, then
/// the minor and the major version, each big-endian.
pub fn decode_header(bytes: &[u8]) -> (r: Result<JavaClassVersion, HeaderError>)
    ensures
        r == decode_spec(bytes@),
{
    if bytes.len() < 8 {
        return Err(HeaderError::MalformedArtifact);
    }
    if bytes[0] != 0xCA || bytes[1] != 0xFE || bytes[2] != 0xBA || bytes[3] != 0xBE {
        return Err(HeaderError::InvalidMagicNumber);
    }
    let minor = (bytes[4] as u16) * 256 + (bytes[5] as u16);
    let major = (bytes[6] as u16) * 256 + (bytes[7] as u16);
    Ok(JavaClassVersion { major, minor })
}

/// The release label of a known major version, or a label that carries the
/// number itself.
pub open spec fn jdk_label(major: u16) -> Seq<char> {
    if 45 <= major <= 48 {
        "JDK 1."@ + decimal((major - 44) as nat)
    } else if 49 <= major <= 65 {
        "JDK "@ + decimal((major - 44) as nat)
    } else {
        "unknown JDK version (major: "@ + decimal(major as nat) + ")"@
    }
}

/// The label of a major version outside the known table names the number
/// and differs from every known label.
pub proof fn lemma_unknown_label(major: u16)
    requires
        !(45 <= major <= 65),
    ensures
        exists|k: int|
            0 <= k && k + decimal(major as nat).len() <= jdk_label(major).len()
                && #[trigger] jdk_label(major).subrange(k, k + decimal(major as nat).len())
                == decimal(major as nat),
        forall|m: u16| 45 <= m <= 65 ==> jdk_label(major) != #[trigger] jdk_label(m),
{
    reveal_strlit("JDK 1.");
    reveal_strlit("JDK ");
    reveal_strlit("unknown JDK version (major: ");
    reveal_strlit(")");
    let p = "unknown JDK version (major: "@;
    let d = decimal(major as nat);
    let l = jdk_label(major);
    assert(l.subrange(p.len() as int, p.len() + d.len() as int) =~= d);
    assert forall|m: u16| 45 <= m <= 65 implies jdk_label(major) != #[trigger] jdk_label(m) by {
        assert(jdk_label(major)[0] == 'u');
        assert(jdk_label(m)[0] == 'J');
    }
}

proof fn lemma_suffix_eq(p: Seq<char>, x: Seq<char>, y: Seq<char>)
    requires
        p + x == p + y,
    ensures
        x == y,
{
    assert((p + x).subrange(p.len() as int, (p + x).len() as int) =~= x);
    assert((p + y).subrange(p.len() as int, (p + y).len() as int) =~= y);
}

/// Distinct major versions have distinct labels, so counting versions
/// counts labels.
pub proof fn lemma_label_injective(a: u16, b: u16)
    requires
        jdk_label(a) == jdk_label(b),
    ensures
        a == b,
{
    reveal_strlit("JDK 1.");
    reveal_strlit("JDK ");
    reveal_strlit("unknown JDK version (major: ");
    reveal_strlit(")");
    lemma_decimal_len((a - 44) as nat);
    lemma_decimal_len((b - 44) as nat);
    let ka = if a < 45 || a > 65 { 2int } else if a <= 48 { 0int } else { 1int };
    let kb = if b < 45 || b > 65 { 2int } else if b <= 48 { 0int } else { 1int };
    if ka == 0 && kb == 0 {
        lemma_suffix_eq("JDK 1."@, decimal((a - 44) as nat), decimal((b - 44) as nat));
        lemma_decimal_injective((a - 44) as nat, (b - 44) as nat);
    } else if ka == 1 && kb == 1 {
        lemma_suffix_eq("JDK "@, decimal((a - 44) as nat), decimal((b - 44) as nat));
        lemma_decimal_injective((a - 44) as nat, (b - 44) as nat);
    } else if ka == 2 && kb == 2 {
        let p = "unknown JDK version (major: "@;
        let da = decimal(a as nat);
        let db = decimal(b as nat);
        let q = ")"@;
        assert(q.len() == 1);
        assert(jdk_label(a) == p + da + q);
        assert(jdk_label(b) == p + db + q);
        assert((p + da + q).len() == p.len() + da.len() + 1);
        assert((p + db + q).len() == p.len() + db.len() + 1);
        assert(da.len() == db.len());
        assert(jdk_label(a).subrange(p.len() as int, p.len() + da.len() as int) =~= da);
        assert(jdk_label(b).subrange(p.len() as int, p.len() + db.len() as int) =~= db);
        lemma_decimal_injective(a as nat, b as nat);
    } else if ka == 2 {
        assert(jdk_label(a)[0] == 'u');
        assert(jdk_label(b)[0] == 'J');
    } else if kb == 2 {
        assert(jdk_label(a)[0] == 'J');
        assert(jdk_label(b)[0] == 'u');
    } else if ka == 0 {
        assert(jdk_label(a).len() == 7);
        assert(jdk_label(b).len() <= 6);
    } else {
        assert(jdk_label(a).len() <= 6);
        assert(jdk_label(b).len() == 7);
    }
}

impl JavaClassVersion {
    /// The JDK release that writes this major version.
    pub fn to_jdk_version(&self) -> (r: String)
        ensures
            r@ == jdk_label(self.major),
    {
        let major = self.major;
        if 45 <= major && major <= 48 {
            let mut s = String::from_str("JDK 1.");
            push_decimal(&mut s, (major - 44) as u64);
            s
        } else if 49 <= major && major <= 65 {
            let mut s = String::from_str("JDK ");
            push_decimal(&mut s, (major - 44) as u64);
            s
        } else {
            let mut s = String::from_str("unknown JDK version (major: ");
            push_decimal(&mut s, major as u64);
            s.append(")");
            s
        }
    }
}

} // verus!
