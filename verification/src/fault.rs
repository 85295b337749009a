use vstd::prelude::*;

verus! {

/// The failure taxonomy of the library.
///
/// `Parse` covers malformed source records or timestamps, `Permission` a
/// denied device data source, `Storage` a dedup-store failure (for the
/// in-memory store: a duplicate key on insert), and `Channel` an unavailable
/// dispatch queue.
#[derive(Clone, Copy, Debug, PartialEq, Eq, Structural)]
pub enum Fault {
    Parse,
    Permission,
    Storage,
    Channel,
}

/// Whether the sentinel marker of a denied source occurs in a raw output at
/// position `i`.
pub open spec fn marker_at(s: Seq<char>, i: int) -> bool {
    &&& 0 <= i
    &&& i + 5 <= s.len()
    &&& s.subrange(i, i + 5) == "Error"@
}

/// Detects the permission-denied condition in a device tool's raw output:
/// the tools signal denial by an `Error` marker in the text instead of a
/// nonzero exit.
pub fn permission_denied_in(raw: &str) -> (r: bool)
    ensures
        r <==> exists|i: int| marker_at(raw@, i),
{
    let n = raw.unicode_len();
    if n < 5 {
        return false;
    }
    let mut i: usize = 0;
    while i <= n - 5
        invariant
            5 <= n == raw@.len(),
            i <= n - 4,
            forall|j: int| 0 <= j < i ==> !marker_at(raw@, j),
        decreases n - i,
    {
        let matches_here = raw.get_char(i) == 'E' && raw.get_char(i + 1) == 'r' && raw.get_char(
            i + 2,
        ) == 'r' && raw.get_char(i + 3) == 'o' && raw.get_char(i + 4) == 'r';
        proof {
            reveal_strlit("Error");
            let sub = raw@.subrange(i as int, i as int + 5);
            assert(sub[0] == raw@[i as int]);
            assert(sub[1] == raw@[i as int + 1]);
            assert(sub[2] == raw@[i as int + 2]);
            assert(sub[3] == raw@[i as int + 3]);
            assert(sub[4] == raw@[i as int + 4]);
            if matches_here {
                assert(sub =~= "Error"@);
            }
        }
        if matches_here {
            proof {
                assert(marker_at(raw@, i as int));
            }
            return true;
        }
        i = i + 1;
    }
    proof {
        assert forall|j: int| marker_at(raw@, j) implies false by {
            assert(0 <= j < i);
        }
    }
    false
}

/// Raised when a device data source denies access.
#[derive(Clone, Debug)]
pub struct PermissionError {}

impl PermissionError {
    pub fn new() -> Self {
        Self {}
    }

    /// The diagnostic line shown for a denied source.
    pub fn message(&self) -> (r: String)
        ensures
            r@ == "Permission denied, please give specify permission to termux:api app"@,
    {
        String::from_str("Permission denied, please give specify permission to termux:api app")
    }
}

} // verus!
