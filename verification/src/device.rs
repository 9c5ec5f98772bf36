//! Execution device of the value network, and its names.
use vstd::prelude::*;

verus! {

/// Device selection for the value network's inference.
#[derive(Debug, Clone, Copy, PartialEq, Eq, Structural)]
pub enum Device {
    /// CPU-only execution (always available).
    Cpu,
    /// CoreML execution.
    CoreML,
    /// CUDA execution.
    Cuda,
}

/// `c` with an ASCII capital letter turned into its small letter.
pub open spec fn ascii_lower(c: char) -> char {
    if 'A' <= c <= 'Z' {
        ((c as u32) + 32) as char
    } else {
        c
    }
}

/// `s` with every ASCII capital letter turned into its small letter.
pub open spec fn lower_ascii_seq(s: Seq<char>) -> Seq<char> {
    s.map_values(|c: char| ascii_lower(c))
}

/// The device a name selects, letter case aside: `cpu`; `coreml` or `mps`; `cuda`
/// or `gpu`.
pub open spec fn device_for_name(s: Seq<char>) -> Option<Device> {
    let l = lower_ascii_seq(s);
    if l == seq!['c', 'p', 'u'] {
        Some(Device::Cpu)
    } else if l == seq!['c', 'o', 'r', 'e', 'm', 'l'] || l == seq!['m', 'p', 's'] {
        Some(Device::CoreML)
    } else if l == seq!['c', 'u', 'd', 'a'] || l == seq!['g', 'p', 'u'] {
        Some(Device::Cuda)
    } else {
        None
    }
}

/// Canonical name of a device.
pub open spec fn device_name(d: Device) -> Seq<char> {
    match d {
        Device::Cpu => seq!['c', 'p', 'u'],
        Device::CoreML => seq!['c', 'o', 'r', 'e', 'm', 'l'],
        Device::Cuda => seq!['c', 'u', 'd', 'a'],
    }
}

/// `s` spells `word` (a word of small letters), letter case aside.
fn matches_word(s: &Vec<char>, word: &str) -> (r: bool)
    ensures
        r == (lower_ascii_seq(s@) == word@),
{
    let n = word.unicode_len();
    if s.len() != n {
        proof {
            if lower_ascii_seq(s@) == word@ {
                assert(lower_ascii_seq(s@).len() == s@.len());
            }
        }
        return false;
    }
    let mut i: usize = 0;
    while i < n
        invariant
            n == word@.len(),
            s@.len() == n,
            i <= n,
            forall|j: int| 0 <= j < i ==> ascii_lower(#[trigger] s@[j]) == word@[j],
        decreases n - i,
    {
        let c = s[i];
        let lc = if 'A' <= c && c <= 'Z' {
            char_from_ascii_code((c as u32 + 32) as u8)
        } else {
            c
        };
        if lc != word.get_char(i) {
            proof {
                if lower_ascii_seq(s@) == word@ {
                    assert(lower_ascii_seq(s@)[i as int] == ascii_lower(s@[i as int]));
                }
            }
            return false;
        }
        i = i + 1;
    }
    assert(lower_ascii_seq(s@) =~= word@);
    true
}

/// The character with ASCII code `b`.
fn char_from_ascii_code(b: u8) -> (c: char)
    requires
        b < 128,
    ensures
        c as u32 == b as u32,
{
    b as char
}

impl Device {
    /// Canonical name of the device.
    pub fn name(&self) -> (r: &'static str)
        ensures
            r@ == device_name(*self),
    {
        proof {
            reveal_strlit("cpu");
            reveal_strlit("coreml");
            reveal_strlit("cuda");
            assert("cpu"@ =~= seq!['c', 'p', 'u']);
            assert("coreml"@ =~= seq!['c', 'o', 'r', 'e', 'm', 'l']);
            assert("cuda"@ =~= seq!['c', 'u', 'd', 'a']);
        }
        match self {
            Device::Cpu => "cpu",
            Device::CoreML => "coreml",
            Device::Cuda => "cuda",
        }
    }

    /// Parses a device name, letter case aside: `cpu`; `coreml` or `mps`; `cuda` or
    /// `gpu`. Any other name is refused with a message that names it.
    pub fn parse(s: &str) -> (r: Result<Device, String>)
        ensures
            match device_for_name(s@) {
                Some(d) => r == Ok::<Device, String>(d),
                None => r matches Err(e) && e@ == "Unknown device '"@ + s@
                    + "'. Use: cpu, cuda, coreml"@,
            },
    {
        proof {
            reveal_strlit("cpu");
            reveal_strlit("coreml");
            reveal_strlit("mps");
            reveal_strlit("cuda");
            reveal_strlit("gpu");
            assert("cpu"@ =~= seq!['c', 'p', 'u']);
            assert("coreml"@ =~= seq!['c', 'o', 'r', 'e', 'm', 'l']);
            assert("mps"@ =~= seq!['m', 'p', 's']);
            assert("cuda"@ =~= seq!['c', 'u', 'd', 'a']);
            assert("gpu"@ =~= seq!['g', 'p', 'u']);
        }
        let mut chars: Vec<char> = Vec::new();
        let n = s.unicode_len();
        let mut i: usize = 0;
        while i < n
            invariant
                n == s@.len(),
                i <= n,
                chars@ =~= s@.take(i as int),
            decreases n - i,
        {
            chars.push(s.get_char(i));
            i = i + 1;
        }
        assert(chars@ =~= s@);
        if matches_word(&chars, "cpu") {
            Ok(Device::Cpu)
        } else if matches_word(&chars, "coreml") || matches_word(&chars, "mps") {
            Ok(Device::CoreML)
        } else if matches_word(&chars, "cuda") || matches_word(&chars, "gpu") {
            Ok(Device::Cuda)
        } else {
            let mut msg = String::from_str("Unknown device '");
            msg.append(s);
            msg.append("'. Use: cpu, cuda, coreml");
            Err(msg)
        }
    }
}

impl std::str::FromStr for Device {
    type Err = String;

    fn from_str(s: &str) -> (r: Result<Device, String>)
        ensures
            match device_for_name(s@) {
                Some(d) => r == Ok::<Device, String>(d),
                None => r matches Err(e) && e@ == "Unknown device '"@ + s@
                    + "'. Use: cpu, cuda, coreml"@,
            },
    {
        Device::parse(s)
    }
}

/// Law: a device's canonical name parses back to the device.
pub proof fn lemma_name_parses(d: Device)
    ensures
        device_for_name(device_name(d)) == Some(d),
{
    let n = device_name(d);
    assert(lower_ascii_seq(n) =~= n);
}

} // verus!
