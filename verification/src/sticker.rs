//! The sticker record and its display identity.
//!
//! The search subsystem around it lives outside the engine; the engine only
//! defines the record and how a sticker names itself in pickers.

use vstd::prelude::*;

use crate::json::hex_char;

verus! {

/// What the standard hasher returns for a text; the same text always hashes
/// the same way within one build.
pub uninterp spec fn hash64_of(s: Seq<char>) -> u64;

/// Relies on std's `DefaultHasher`: an unkeyed hasher whose result depends
/// on the hashed text alone.
#[verifier::external_body]
fn url_hash64(s: &str) -> (r: u64)
    ensures
        r == hash64_of(s@),
{
    let mut hasher = std::collections::hash_map::DefaultHasher::new();
    std::hash::Hash::hash(s, &mut hasher);
    std::hash::Hasher::finish(&hasher)
}

/// The last `k` hexadecimal digits of `n`, zero padded.
pub open spec fn hex_digits(n: int, k: nat) -> Seq<char>
    decreases k,
{
    if k == 0 {
        Seq::empty()
    } else {
        hex_digits(n / 16, (k - 1) as nat) + seq![hex_char(n % 16)]
    }
}

fn hex_width(n: u32, k: usize) -> (r: String)
    requires
        k <= 8,
    ensures
        r@ == hex_digits(n as int, k as nat),
        r@.len() == k,
    decreases k,
{
    if k == 0 {
        let out = String::new();
        assert(out@ =~= hex_digits(n as int, 0));
        out
    } else {
        let mut out = hex_width(n / 16, k - 1);
        out.append(crate::json::hex_str((n % 16) as u8));
        out
    }
}

/// One sticker: a display name, an image, and the category it files under.
#[derive(Debug)]
pub struct Sticker {
    pub name: String,
    pub image_url: String,
    pub category: String,
}

impl Clone for Sticker {
    fn clone(&self) -> (r: Self)
        ensures
            r == *self,
    {
        Sticker {
            name: self.name.clone(),
            image_url: self.image_url.clone(),
            category: self.category.clone(),
        }
    }
}

impl Sticker {
    /// The eight-digit hex tag of the image address.
    pub fn get_url_hash(&self) -> (r: String)
        ensures
            r@ == hex_digits((hash64_of(self.image_url@) as u32) as int, 8),
            r@.len() == 8,
    {
        let h = url_hash64(self.image_url.as_str());
        hex_width(h as u32, 8)
    }

    /// How the sticker names itself in a picker: category, name, hash tag.
    pub fn get_display_name(&self) -> (r: String)
        ensures
            r@ == "["@ + self.category@ + "] "@ + self.name@ + " ("@ + hex_digits(
                (hash64_of(self.image_url@) as u32) as int,
                8,
            ) + ")"@,
    {
        proof {
            reveal_strlit("[");
            reveal_strlit("] ");
            reveal_strlit(" (");
            reveal_strlit(")");
        }
        let mut out = String::new();
        out.append("[");
        out.append(self.category.as_str());
        out.append("] ");
        out.append(self.name.as_str());
        out.append(" (");
        let hash = self.get_url_hash();
        out.append(hash.as_str());
        out.append(")");
        out
    }
}

} // verus!
