use vstd::prelude::*;
use vstd::string::StrSliceExecFns;

verus! {

/// The separator that ends the name of a virtual directory.
pub const PATH_SEPARATOR: char = '/';

/// A name denotes a virtual directory when it ends in the path separator.
pub open spec fn is_dir_name(name: Seq<char>) -> bool {
    name.len() > 0 && name.last() == PATH_SEPARATOR
}

/// `pattern` occurs somewhere in `text` as a contiguous run of characters.
pub open spec fn occurs_in(pattern: Seq<char>, text: Seq<char>) -> bool {
    exists|i: int|
        0 <= i && i + pattern.len() <= text.len() && #[trigger] text.subrange(i, i + pattern.len())
            == pattern
}

/// One entry of a listing: a stored object, or a virtual directory when its
/// name ends in the path separator.
#[derive(Debug)]
pub struct ObjectRecord {
    pub name: String,
    pub size: u64,
    /// Last modification time in milliseconds since the Unix epoch, when known.
    pub last_modified: Option<u64>,
}

impl ObjectRecord {
    pub fn new(name: String, size: u64, last_modified: Option<u64>) -> (r: ObjectRecord)
        ensures
            r.name@ == name@,
            r.size == size,
            r.last_modified == last_modified,
    {
        ObjectRecord { name, size, last_modified }
    }

    pub open spec fn spec_is_directory(&self) -> bool {
        is_dir_name(self.name@)
    }

    pub fn name(&self) -> (r: &str)
        ensures
            r@ == self.name@,
    {
        self.name.as_str()
    }

    pub fn is_directory(&self) -> (r: bool)
        ensures
            r == self.spec_is_directory(),
    {
        let s = self.name.as_str();
        let n = s.unicode_len();
        if n == 0 {
            false
        } else {
            s.get_char(n - 1) == PATH_SEPARATOR
        }
    }
}

impl Clone for ObjectRecord {
    fn clone(&self) -> (r: Self)
        ensures
            r == *self,
    {
        ObjectRecord { name: self.name.clone(), size: self.size, last_modified: self.last_modified }
    }
}

/// Copies an optional text; the copy equals the given value.
pub fn clone_opt_string(s: &Option<String>) -> (r: Option<String>)
    ensures
        r == *s,
{
    match s {
        Some(v) => Some(v.clone()),
        None => None,
    }
}

/// Whether `pattern` occurs in `text`, by trying each start position in turn.
pub fn str_contains(text: &str, pattern: &str) -> (r: bool)
    ensures
        r == occurs_in(pattern@, text@),
{
    let n = text.unicode_len();
    let m = pattern.unicode_len();
    if m > n {
        assert forall|i: int|
            0 <= i && i + pattern@.len() <= text@.len() implies #[trigger] text@.subrange(
                i,
                i + pattern@.len(),
            ) != pattern@ by {}
        return false;
    }
    let mut start: usize = 0;
    while start <= n - m
        invariant
            n == text@.len(),
            m == pattern@.len(),
            m <= n,
            start <= n - m + 1,
            forall|i: int|
                0 <= i < start ==> #[trigger] text@.subrange(i, i + m as int) != pattern@,
        decreases n - m + 1 - start,
    {
        let mut k: usize = 0;
        let mut same = true;
        while k < m
            invariant
                n == text@.len(),
                m == pattern@.len(),
                start + m <= n,
                k <= m,
                same == (forall|j: int| 0 <= j < k ==> text@[start + j] == pattern@[j]),
            decreases m - k,
        {
            if text.get_char(start + k) != pattern.get_char(k) {
                same = false;
            }
            k = k + 1;
        }
        if same {
            assert(text@.subrange(start as int, start + m) =~= pattern@);
            return true;
        }
        let ghost j = choose|j: int| 0 <= j < m && text@[start + j] != pattern@[j];
        assert(text@.subrange(start as int, start + m)[j] != pattern@[j]);
        start = start + 1;
    }
    false
}

/// A predicate over the attributes of a record. Every bound that is set must
/// hold; bounds are inclusive. A record without a modification time fails any
/// bound on that time.
#[derive(Debug)]
pub struct FileObjectFilter {
    /// Text that must occur in the record's name.
    pub name: Option<String>,
    pub min_size: Option<u64>,
    pub max_size: Option<u64>,
    pub min_modified: Option<u64>,
    pub max_modified: Option<u64>,
}

impl Clone for FileObjectFilter {
    fn clone(&self) -> (r: Self)
        ensures
            r == *self,
    {
        FileObjectFilter {
            name: clone_opt_string(&self.name),
            min_size: self.min_size,
            max_size: self.max_size,
            min_modified: self.min_modified,
            max_modified: self.max_modified,
        }
    }
}

impl FileObjectFilter {
    pub open spec fn spec_matches(&self, r: ObjectRecord) -> bool {
        &&& (self.name matches Some(p) ==> occurs_in(p@, r.name@))
        &&& (self.min_size matches Some(lo) ==> lo <= r.size)
        &&& (self.max_size matches Some(hi) ==> r.size <= hi)
        &&& (self.min_modified matches Some(lo) ==> (r.last_modified matches Some(t) && lo <= t))
        &&& (self.max_modified matches Some(hi) ==> (r.last_modified matches Some(t) && t <= hi))
    }

    pub fn matches(&self, r: &ObjectRecord) -> (b: bool)
        ensures
            b == self.spec_matches(*r),
    {
        let name_ok = match &self.name {
            Some(p) => str_contains(r.name.as_str(), p.as_str()),
            None => true,
        };
        let min_size_ok = match self.min_size {
            Some(lo) => lo <= r.size,
            None => true,
        };
        let max_size_ok = match self.max_size {
            Some(hi) => r.size <= hi,
            None => true,
        };
        let min_mod_ok = match self.min_modified {
            Some(lo) => match r.last_modified {
                Some(t) => lo <= t,
                None => false,
            },
            None => true,
        };
        let max_mod_ok = match self.max_modified {
            Some(hi) => match r.last_modified {
                Some(t) => t <= hi,
                None => false,
            },
            None => true,
        };
        name_ok && min_size_ok && max_size_ok && min_mod_ok && max_mod_ok
    }
}

} // verus!
