use vstd::prelude::*;

verus! {

/// A temporary file with a short path, which a short name in `/tmp` gives.
#[derive(Debug)]
pub struct ShortTempFile {
    pub path: String,
}

impl ShortTempFile {
    /// The path of the file.
    pub fn path(&self) -> (result: String)
        ensures
            result@ == self.path@,
    {
        self.path.clone()
    }
}

/// The characters that short names are made of.
pub open spec fn name_characters() -> Seq<char> {
    "abcdefghijklmnopqrstuvwxyzABCDEFGHIJKLMNOPQRSTUVWXYZ1234567890-_+="@
}

/// The number of short names.
pub open spec fn name_count() -> nat {
    4356
}

/// The short name with a number: two characters, the first counting the
/// 66 names that start with it.
pub open spec fn short_name(k: int) -> Seq<char> {
    seq![name_characters()[k / 66], name_characters()[k % 66]]
}

/// The short names, in order, each of two characters.
#[derive(Debug)]
pub struct Names {
    handed_out: usize,
}

impl Names {
    /// How many names were handed out.
    pub closed spec fn count(&self) -> nat {
        self.handed_out as nat
    }

    /// The names from the first one on.
    pub fn new() -> (result: Names)
        ensures
            result.count() == 0,
    {
        Names { handed_out: 0 }
    }

    /// The next name, if any is left (see `short_name`).
    pub fn next(&mut self) -> (result: Option<String>)
        ensures
            old(self).count() < name_count() ==> (result matches Some(name) && name@ == short_name(
                old(self).count() as int,
            ) && final(self).count() == old(self).count() + 1),
            old(self).count() >= name_count() ==> (result is None && final(self).count() == old(self).count()),
    {
        if self.handed_out >= 4356 {
            return None;
        }
        let characters = crate::text::chars_of("abcdefghijklmnopqrstuvwxyzABCDEFGHIJKLMNOPQRSTUVWXYZ1234567890-_+=");
        proof {
            reveal_strlit("abcdefghijklmnopqrstuvwxyzABCDEFGHIJKLMNOPQRSTUVWXYZ1234567890-_+=");
        }
        let k = self.handed_out;
        let mut name: Vec<char> = Vec::new();
        name.push(characters[k / 66]);
        name.push(characters[k % 66]);
        assert(name@ =~= short_name(k as int));
        self.handed_out = k + 1;
        Some(crate::text::string_from_chars(&name))
    }
}


/// The position of a character among the characters that short names are
/// made of.
pub open spec fn character_index(c: char) -> int {
    if 'a' <= c && c <= 'z' {
        c as int - 'a' as int
    } else if 'A' <= c && c <= 'Z' {
        26 + (c as int - 'A' as int)
    } else if '1' <= c && c <= '9' {
        52 + (c as int - '1' as int)
    } else if c == '0' {
        61
    } else if c == '-' {
        62
    } else if c == '_' {
        63
    } else if c == '+' {
        64
    } else {
        65
    }
}

/// Each character of the short names is at its own position.
proof fn lemma_character_indices()
    ensures
        name_characters().len() == 66,
        forall|i: int| 0 <= i < 66 ==> #[trigger] character_index(name_characters()[i]) == i,
{
    reveal_strlit("abcdefghijklmnopqrstuvwxyzABCDEFGHIJKLMNOPQRSTUVWXYZ1234567890-_+=");
    assert forall|i: int| 0 <= i < 66 implies #[trigger] character_index(name_characters()[i]) == i by {
        if i == 0 {} else if i == 1 {} else if i == 2 {} else if i == 3 {} else if i == 4 {}
        else if i == 5 {} else if i == 6 {} else if i == 7 {} else if i == 8 {} else if i == 9 {}
        else if i == 10 {} else if i == 11 {} else if i == 12 {} else if i == 13 {}
        else if i == 14 {} else if i == 15 {} else if i == 16 {} else if i == 17 {}
        else if i == 18 {} else if i == 19 {} else if i == 20 {} else if i == 21 {}
        else if i == 22 {} else if i == 23 {} else if i == 24 {} else if i == 25 {}
        else if i == 26 {} else if i == 27 {} else if i == 28 {} else if i == 29 {}
        else if i == 30 {} else if i == 31 {} else if i == 32 {} else if i == 33 {}
        else if i == 34 {} else if i == 35 {} else if i == 36 {} else if i == 37 {}
        else if i == 38 {} else if i == 39 {} else if i == 40 {} else if i == 41 {}
        else if i == 42 {} else if i == 43 {} else if i == 44 {} else if i == 45 {}
        else if i == 46 {} else if i == 47 {} else if i == 48 {} else if i == 49 {}
        else if i == 50 {} else if i == 51 {} else if i == 52 {} else if i == 53 {}
        else if i == 54 {} else if i == 55 {} else if i == 56 {} else if i == 57 {}
        else if i == 58 {} else if i == 59 {} else if i == 60 {} else if i == 61 {}
        else if i == 62 {} else if i == 63 {} else if i == 64 {} else {}
    }
}

/// No two short names are the same, and each has two characters.
pub proof fn lemma_short_names_unique(k1: int, k2: int)
    requires
        0 <= k1 < name_count(),
        0 <= k2 < name_count(),
        k1 != k2,
    ensures
        short_name(k1) != short_name(k2),
        short_name(k1).len() == 2,
{
    lemma_character_indices();
    if short_name(k1) == short_name(k2) {
        assert(short_name(k1)[0] == short_name(k2)[0]);
        assert(short_name(k1)[1] == short_name(k2)[1]);
        assert(character_index(name_characters()[k1 / 66]) == k1 / 66);
        assert(character_index(name_characters()[k2 / 66]) == k2 / 66);
        assert(character_index(name_characters()[k1 % 66]) == k1 % 66);
        assert(character_index(name_characters()[k2 % 66]) == k2 % 66);
        assert(k1 == (k1 / 66) * 66 + k1 % 66);
        assert(k2 == (k2 / 66) * 66 + k2 % 66);
    }
}

} // verus!
