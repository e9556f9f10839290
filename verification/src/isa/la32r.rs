//! The LA32R instruction registry: a fixed table of mnemonics, each
//! compiled from its 32-bit template string.

use vstd::prelude::*;
use vstd::pervasive::unreached;
use vstd::string::StrSliceExecFns;

use crate::bitspattern::BitsPattern;
use crate::bitspattern::BitsPatternPart;
use crate::bitspattern::fits;
use crate::bitspattern::lemma_generated_fits;
use crate::bitspattern::lemma_realizes_bounded;
use crate::bitspattern::lemma_spaceless_template;
use crate::bitspattern::parse;
use crate::bitspattern::realizes;
use crate::bitspattern::spaceless_template_from;
use crate::bitspattern::valid_template;
use crate::isa::ISA;

verus! {

/// The mnemonics of the LA32R table, in table order.
pub open spec fn la32r_names() -> Seq<Seq<char>> {
    seq![
        "ADDW"@,
        "SUBW"@,
        "SLT"@,
        "SLTU"@,
        "NOR"@,
        "AND"@,
        "OR"@,
        "XOR"@,
        "SLLW"@,
        "SRLW"@,
        "SRAW"@,
    ]
}

/// The template strings of the LA32R table, in table order.
pub open spec fn la32r_templates() -> Seq<Seq<char>> {
    seq![
        "00000000000100000???????????????"@,
        "00000000000100010???????????????"@,
        "00000000000100100???????????????"@,
        "00000000000100101???????????????"@,
        "00000000000101000???????????????"@,
        "00000000000101001???????????????"@,
        "00000000000101010???????????????"@,
        "00000000000101011???????????????"@,
        "00000000000101110???????????????"@,
        "00000000000101111???????????????"@,
        "00000000000110000???????????????"@,
    ]
}

/// The table's mnemonics are pairwise distinct, so lookup by name is
/// unambiguous.
pub proof fn lemma_la32r_names_distinct()
    ensures
        forall|i: int, j: int|
            0 <= i < j < la32r_names().len() ==> la32r_names()[i] != la32r_names()[j],
{
    reveal_strlit("ADDW");
    reveal_strlit("SUBW");
    reveal_strlit("SLT");
    reveal_strlit("SLTU");
    reveal_strlit("NOR");
    reveal_strlit("AND");
    reveal_strlit("OR");
    reveal_strlit("XOR");
    reveal_strlit("SLLW");
    reveal_strlit("SRLW");
    reveal_strlit("SRAW");
    assert forall|i: int, j: int|
        0 <= i < j < la32r_names().len() implies la32r_names()[i] != la32r_names()[j] by {
        let a = la32r_names()[i];
        let b = la32r_names()[j];
        // Each pair of table mnemonics differs in length or within the
        // first three characters.
        assert(a.len() != b.len() || a[0] != b[0] || a[1] != b[1] || a[2] != b[2]);
    }
}

/// The LA32R registry: for each supported mnemonic, the compiled pattern
/// of its encoding.
pub struct LAS32R {
    instrs: Vec<&'static str>,
    patterns: Vec<BitsPattern>,
}

impl LAS32R {
    /// The mnemonics held by the registry, as character sequences.
    pub closed spec fn names(&self) -> Seq<Seq<char>> {
        Seq::new(self.instrs@.len(), |j: int| self.instrs@[j]@)
    }

    /// The compiled patterns held by the registry, one per mnemonic.
    pub closed spec fn patterns_view(&self) -> Seq<Seq<BitsPatternPart>> {
        Seq::new(self.patterns@.len(), |j: int| self.patterns@[j]@)
    }

    #[verifier::type_invariant]
    spec fn wf(self) -> bool {
        &&& self.instrs@.len() == self.patterns@.len()
        &&& forall|j: int|
            0 <= j < self.patterns@.len() ==> (#[trigger] self.patterns@[j])@.len() <= 32
    }

    /// Builds the registry: each mnemonic of the table, paired with the
    /// pattern compiled from its template.
    pub fn new() -> (r: LAS32R)
        ensures
            r.names() == la32r_names(),
            r.patterns_view().len() == la32r_templates().len(),
            forall|j: int|
                0 <= j < la32r_templates().len() ==> r.patterns_view()[j] == parse(
                    #[trigger] la32r_templates()[j],
                ),
    {
        proof {
            reveal_with_fuel(spaceless_template_from, 33);
        }
        let mut instrs: Vec<&'static str> = Vec::new();
        let mut patterns: Vec<BitsPattern> = Vec::new();

        proof {
            reveal_strlit("00000000000100000???????????????");
            assert(spaceless_template_from("00000000000100000???????????????"@, 0));
            lemma_spaceless_template("00000000000100000???????????????"@);
        }
        instrs.push("ADDW");
        patterns.push(compiled("00000000000100000???????????????"));

        proof {
            reveal_strlit("00000000000100010???????????????");
            assert(spaceless_template_from("00000000000100010???????????????"@, 0));
            lemma_spaceless_template("00000000000100010???????????????"@);
        }
        instrs.push("SUBW");
        patterns.push(compiled("00000000000100010???????????????"));

        proof {
            reveal_strlit("00000000000100100???????????????");
            assert(spaceless_template_from("00000000000100100???????????????"@, 0));
            lemma_spaceless_template("00000000000100100???????????????"@);
        }
        instrs.push("SLT");
        patterns.push(compiled("00000000000100100???????????????"));

        proof {
            reveal_strlit("00000000000100101???????????????");
            assert(spaceless_template_from("00000000000100101???????????????"@, 0));
            lemma_spaceless_template("00000000000100101???????????????"@);
        }
        instrs.push("SLTU");
        patterns.push(compiled("00000000000100101???????????????"));

        proof {
            reveal_strlit("00000000000101000???????????????");
            assert(spaceless_template_from("00000000000101000???????????????"@, 0));
            lemma_spaceless_template("00000000000101000???????????????"@);
        }
        instrs.push("NOR");
        patterns.push(compiled("00000000000101000???????????????"));

        proof {
            reveal_strlit("00000000000101001???????????????");
            assert(spaceless_template_from("00000000000101001???????????????"@, 0));
            lemma_spaceless_template("00000000000101001???????????????"@);
        }
        instrs.push("AND");
        patterns.push(compiled("00000000000101001???????????????"));

        proof {
            reveal_strlit("00000000000101010???????????????");
            assert(spaceless_template_from("00000000000101010???????????????"@, 0));
            lemma_spaceless_template("00000000000101010???????????????"@);
        }
        instrs.push("OR");
        patterns.push(compiled("00000000000101010???????????????"));

        proof {
            reveal_strlit("00000000000101011???????????????");
            assert(spaceless_template_from("00000000000101011???????????????"@, 0));
            lemma_spaceless_template("00000000000101011???????????????"@);
        }
        instrs.push("XOR");
        patterns.push(compiled("00000000000101011???????????????"));

        proof {
            reveal_strlit("00000000000101110???????????????");
            assert(spaceless_template_from("00000000000101110???????????????"@, 0));
            lemma_spaceless_template("00000000000101110???????????????"@);
        }
        instrs.push("SLLW");
        patterns.push(compiled("00000000000101110???????????????"));

        proof {
            reveal_strlit("00000000000101111???????????????");
            assert(spaceless_template_from("00000000000101111???????????????"@, 0));
            lemma_spaceless_template("00000000000101111???????????????"@);
        }
        instrs.push("SRLW");
        patterns.push(compiled("00000000000101111???????????????"));

        proof {
            reveal_strlit("00000000000110000???????????????");
            assert(spaceless_template_from("00000000000110000???????????????"@, 0));
            lemma_spaceless_template("00000000000110000???????????????"@);
        }
        instrs.push("SRAW");
        patterns.push(compiled("00000000000110000???????????????"));

        let r = LAS32R { instrs, patterns };
        proof {
            assert(r.names() =~= la32r_names());
        }
        r
    }
}

/// Compiles a template known to be valid; the compiler cannot reject it.
fn compiled(template: &str) -> (p: BitsPattern)
    requires
        valid_template(template@),
    ensures
        p@ == parse(template@),
{
    match BitsPattern::new(template) {
        Ok(p) => p,
        Err(_) => unreached(),
    }
}

/// Character-for-character string equality, decided without assuming
/// anything about the encoding.
fn str_eq(a: &str, b: &str) -> (r: bool)
    ensures
        r == (a@ == b@),
{
    let na = a.unicode_len();
    let nb = b.unicode_len();
    if na != nb {
        return false;
    }
    let mut i: usize = 0;
    while i < na
        invariant
            na == a@.len(),
            na == b@.len(),
            i <= na,
            forall|j: int| 0 <= j < i ==> a@[j] == b@[j],
        decreases na - i,
    {
        let ca = a.get_char(i);
        let cb = b.get_char(i);
        if ca != cb {
            return false;
        }
        i += 1;
    }
    proof {
        assert(a@ =~= b@);
    }
    true
}

impl ISA for LAS32R {
    type InstrType = u32;

    fn support_instrs(&self) -> (r: &Vec<&'static str>)
        ensures
            r@.len() == self.names().len(),
            forall|j: int| 0 <= j < r@.len() ==> (#[trigger] r@[j])@ == self.names()[j],
    {
        &self.instrs
    }

    fn generate_instr(&self, instr: &str) -> (r: Option<u32>)
        ensures
            r is Some <==> self.names().contains(instr@),
            r matches Some(v) ==> exists|j: int|
                0 <= j < self.names().len() && self.names()[j] == instr@ && realizes(
                    #[trigger] self.patterns_view()[j],
                    v as u64,
                ) && fits(self.patterns_view()[j], v as u64, 32),
    {
        proof {
            use_type_invariant(self);
        }
        let n = self.instrs.len();
        let mut k: usize = 0;
        while k < n
            invariant
                self.wf(),
                n == self.instrs@.len(),
                k <= n,
                forall|j: int| 0 <= j < k ==> self.names()[j] != instr@,
            decreases n - k,
        {
            if str_eq(self.instrs[k], instr) {
                match self.patterns[k].generate(32) {
                    Ok(v) => {
                        proof {
                            let ghost parts = self.patterns_view()[k as int];
                            lemma_generated_fits(parts, v, 32);
                            lemma_realizes_bounded(parts, v, 32);
                            assert((1u64 << 32u64) == 0x1_0000_0000) by (bit_vector);
                            assert(self.names()[k as int] == instr@);
                            assert(self.names().contains(instr@));
                        }
                        return Some(v as u32);
                    },
                    Err(_) => unreached(),
                }
            }
            k += 1;
        }
        None
    }
}

} // verus!
