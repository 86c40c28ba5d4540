use vstd::prelude::*;

use ansi_term::Style;
use rand::{distributions::Alphanumeric, rngs::OsRng, Rng};

verus! {

/// A utility to create a testnet chain spec definition with a given set of
/// authorities and endowed accounts, and/or generate random accounts.
pub enum ChainSpecBuilder {
    /// Create a new chain spec with the given authorities, endowed and sudo
    /// accounts.
    New {
        /// Authority key seeds.
        authority_seeds: Vec<String>,
        /// Endowed account addresses (SS58 format).
        endowed_accounts: Vec<String>,
        /// Sudo account address (SS58 format).
        sudo_account: String,
        /// The path where the chain spec should be saved.
        chain_spec_path: String,
    },
    /// Create a new chain spec with the given number of authorities and
    /// endowed accounts. Random keys are generated as required.
    Generate {
        /// The number of authorities.
        authorities: usize,
        /// The number of endowed accounts.
        endowed: usize,
        /// The path where the chain spec should be saved.
        chain_spec_path: String,
        /// Where to save a generated keystore for each authority, in a
        /// folder `auth-$i` for the authority with index `i`.
        keystore_path: Option<String>,
    },
}

impl ChainSpecBuilder {
    /// The path where the chain spec should be saved, whichever the command.
    pub open spec fn spec_chain_spec_path(&self) -> Seq<char> {
        match self {
            ChainSpecBuilder::New { chain_spec_path, .. } => chain_spec_path@,
            ChainSpecBuilder::Generate { chain_spec_path, .. } => chain_spec_path@,
        }
    }

    /// Returns the path where the chain spec should be saved.
    pub fn chain_spec_path(&self) -> (r: &String)
        ensures
            r@ == self.spec_chain_spec_path(),
    {
        match self {
            ChainSpecBuilder::New { chain_spec_path, .. } => chain_spec_path,
            ChainSpecBuilder::Generate { chain_spec_path, .. } => chain_spec_path,
        }
    }
}

/// The character of a decimal digit.
pub open spec fn digit_char(d: nat) -> char {
    (d + 48) as char
}

/// The decimal representation of `n`, without leading zeros.
pub open spec fn decimal(n: nat) -> Seq<char>
    decreases n,
{
    if n < 10 {
        seq![digit_char(n)]
    } else {
        decimal(n / 10) + seq![digit_char(n % 10)]
    }
}

/// `text` in bold, as ANSI escape codes render it.
pub open spec fn bold(text: Seq<char>) -> Seq<char> {
    "\x1B[1m"@ + text + "\x1B[0m"@
}

/// `text` in bold and underlined, as ANSI escape codes render it.
pub open spec fn bold_underline(text: Seq<char>) -> Seq<char> {
    "\x1B[1;4m"@ + text + "\x1B[0m"@
}

/// The lines that list seeds: each seed behind the bold label `label`
/// with its index and a colon, then a space and the seed as a derivation
/// path.
pub open spec fn seed_lines(label: Seq<char>, seeds: Seq<Seq<char>>) -> Seq<Seq<char>> {
    Seq::new(
        seeds.len(),
        |n: int| bold(label + decimal(n as nat) + ":"@) + " //"@ + seeds[n],
    )
}

/// The report of generated seeds: a bold underlined header and a line per
/// seed for the authorities, then for the endowed accounts when there are
/// any, each followed by an empty line, then the sudo seed.
pub open spec fn spec_seed_report(
    authority_seeds: Seq<Seq<char>>,
    endowed_seeds: Seq<Seq<char>>,
    sudo_seed: Seq<char>,
) -> Seq<Seq<char>> {
    let authorities = seq![bold_underline("Authority seeds"@)] + seed_lines("auth-"@, authority_seeds)
        + seq![Seq::<char>::empty()];
    let endowed = if endowed_seeds.len() > 0 {
        seq![bold_underline("Endowed seeds"@)] + seed_lines("endowed-"@, endowed_seeds) + seq![
            Seq::<char>::empty(),
        ]
    } else {
        Seq::empty()
    };
    authorities + endowed + seq![bold_underline("Sudo seed"@), "//"@ + sudo_seed]
}

/// The strings as character sequences.
pub open spec fn strings_view(strings: Seq<String>) -> Seq<Seq<char>> {
    strings.map_values(|s: String| s@)
}

/// Whether a character is an ASCII letter or digit.
pub open spec fn is_alphanumeric(c: char) -> bool {
    ('0' <= c <= '9') || ('a' <= c <= 'z') || ('A' <= c <= 'Z')
}

/// The number of characters of a generated seed.
pub const SEED_LENGTH: usize = 32;

/// A seed as generated: `SEED_LENGTH` alphanumeric characters.
pub open spec fn is_generated_seed(seed: Seq<char>) -> bool {
    seed.len() == SEED_LENGTH && forall|i: int| 0 <= i < SEED_LENGTH ==> is_alphanumeric(#[trigger] seed[i])
}

/// Renders `text` in bold and underlined with ansi_term
/// (`Style::new().bold().underline().paint(text)`, displayed): the escape
/// codes for bold and underline, the text, and the reset code.
#[verifier::external_body]
fn paint_bold_underline(text: &str) -> (r: String)
    ensures
        r@ == bold_underline(text@),
{
    Style::new().bold().underline().paint(text).to_string()
}

/// Renders `text` in bold with ansi_term (`Style::new().bold().paint(text)`,
/// displayed): the escape code for bold, the text, and the reset code.
#[verifier::external_body]
fn paint_bold(text: &str) -> (r: String)
    ensures
        r@ == bold(text@),
{
    Style::new().bold().paint(text).to_string()
}

/// Draws `len` characters from rand's `Alphanumeric` distribution with the
/// operating system's generator (`OsRng.sample_iter(&Alphanumeric)`, `len`
/// of them collected). The result depends on chance: the contract states
/// what holds of every outcome, that there are `len` characters and each is
/// one of the 62 that the distribution draws from. `OsRng` panics when the
/// operating system cannot supply randomness; nothing here rules that out.
#[verifier::external_body]
fn random_alphanumeric(len: usize) -> (r: String)
    ensures
        r@.len() == len,
        forall|i: int| 0 <= i < len ==> is_alphanumeric(#[trigger] r@[i]),
{
    OsRng.sample_iter(&Alphanumeric).take(len).collect()
}

/// A freshly drawn seed.
fn random_seed() -> (r: String)
    ensures
        is_generated_seed(r@),
{
    random_alphanumeric(SEED_LENGTH)
}

/// The string of a decimal digit.
fn digit_str(d: usize) -> (r: &'static str)
    requires
        d < 10,
    ensures
        r@ == seq![digit_char(d as nat)],
{
    proof {
        reveal_strlit("0");
        reveal_strlit("1");
        reveal_strlit("2");
        reveal_strlit("3");
        reveal_strlit("4");
        reveal_strlit("5");
        reveal_strlit("6");
        reveal_strlit("7");
        reveal_strlit("8");
        reveal_strlit("9");
    }
    let r = match d {
        0 => "0",
        1 => "1",
        2 => "2",
        3 => "3",
        4 => "4",
        5 => "5",
        6 => "6",
        7 => "7",
        8 => "8",
        _ => "9",
    };
    assert(r@ =~= seq![digit_char(d as nat)]);
    r
}

/// The decimal representation of `n`.
pub fn decimal_string(n: usize) -> (r: String)
    ensures
        r@ == decimal(n as nat),
    decreases n,
{
    if n < 10 {
        String::from_str(digit_str(n))
    } else {
        let mut s = decimal_string(n / 10);
        s.append(digit_str(n % 10));
        s
    }
}

/// Adds a line per seed, labelled `label` and the seed's index.
fn push_seed_lines(lines: &mut Vec<String>, label: &str, seeds: &[String])
    ensures
        strings_view(final(lines)@) == strings_view(old(lines)@) + seed_lines(
            label@,
            strings_view(seeds@),
        ),
{
    let ghost start = strings_view(lines@);
    let mut n: usize = 0;
    while n < seeds.len()
        invariant
            n <= seeds@.len(),
            strings_view(lines@) == start + seed_lines(label@, strings_view(seeds@.subrange(0, n as int))),
        decreases seeds@.len() - n,
    {
        let mut entry_label = String::from_str(label);
        let index = decimal_string(n);
        entry_label.append(index.as_str());
        entry_label.append(":");
        let mut line = paint_bold(entry_label.as_str());
        line.append(" //");
        line.append(seeds[n].as_str());
        let ghost before = lines@;
        lines.push(line);
        proof {
            assert(strings_view(lines@) =~= strings_view(before).push(line@));
            assert(seed_lines(label@, strings_view(seeds@.subrange(0, n + 1))) =~= seed_lines(
                label@,
                strings_view(seeds@.subrange(0, n as int)),
            ).push(line@));
        }
        n = n + 1;
    }
    assert(seeds@.subrange(0, n as int) =~= seeds@);
}

/// The lines that report generated seeds, for the caller to print.
pub fn seed_report(authority_seeds: &[String], endowed_seeds: &[String], sudo_seed: &str) -> (lines: Vec<String>)
    ensures
        strings_view(lines@) == spec_seed_report(
            strings_view(authority_seeds@),
            strings_view(endowed_seeds@),
            sudo_seed@,
        ),
{
    let ghost authority_view = strings_view(authority_seeds@);
    let ghost endowed_view = strings_view(endowed_seeds@);
    let mut lines: Vec<String> = Vec::new();
    lines.push(paint_bold_underline("Authority seeds"));
    assert(strings_view(lines@) =~= seq![bold_underline("Authority seeds"@)]);
    push_seed_lines(&mut lines, "auth-", authority_seeds);
    lines.push(String::new());
    let ghost authorities_part = seq![bold_underline("Authority seeds"@)] + seed_lines("auth-"@, authority_view)
        + seq![Seq::<char>::empty()];
    assert(strings_view(lines@) =~= authorities_part);
    let ghost endowed_part = if endowed_view.len() > 0 {
        seq![bold_underline("Endowed seeds"@)] + seed_lines("endowed-"@, endowed_view) + seq![
            Seq::<char>::empty(),
        ]
    } else {
        Seq::<Seq<char>>::empty()
    };
    if endowed_seeds.len() != 0 {
        let ghost before = strings_view(lines@);
        lines.push(paint_bold_underline("Endowed seeds"));
        assert(strings_view(lines@) =~= before + seq![bold_underline("Endowed seeds"@)]);
        push_seed_lines(&mut lines, "endowed-", endowed_seeds);
        let ghost mid = strings_view(lines@);
        assert(mid =~= before + seq![bold_underline("Endowed seeds"@)] + seed_lines("endowed-"@, endowed_view));
        lines.push(String::new());
        assert(strings_view(lines@) =~= mid.push(Seq::<char>::empty()));
        assert(endowed_view.len() > 0);
        assert(strings_view(lines@) =~= before + endowed_part);
    } else {
        assert(endowed_part =~= Seq::<Seq<char>>::empty());
    }
    assert(strings_view(lines@) =~= authorities_part + endowed_part);
    let ghost before_sudo = strings_view(lines@);
    lines.push(paint_bold_underline("Sudo seed"));
    let mut sudo_line = String::from_str("//");
    sudo_line.append(sudo_seed);
    lines.push(sudo_line);
    assert(strings_view(lines@) =~= before_sudo + seq![bold_underline("Sudo seed"@), "//"@ + sudo_seed@]);
    assert(strings_view(lines@) =~= spec_seed_report(
        strings_view(authority_seeds@),
        strings_view(endowed_seeds@),
        sudo_seed@,
    ));
    lines
}

/// The operating system's randomness as the chain-spec builder draws
/// seeds from it, with the seeds drawn so far, in order.
pub struct SeedSource {
    drawn: Ghost<Seq<Seq<char>>>,
}

impl SeedSource {
    /// The seeds drawn so far from this source, in the order drawn.
    pub closed spec fn draws(&self) -> Seq<Seq<char>> {
        self.drawn@
    }

    /// A source from which nothing has been drawn yet.
    pub fn new() -> (r: SeedSource)
        ensures
            r.draws() == Seq::<Seq<char>>::empty(),
    {
        SeedSource { drawn: Ghost(Seq::empty()) }
    }

    /// Draws a fresh seed, which becomes the latest draw.
    pub fn draw(&mut self) -> (r: String)
        ensures
            is_generated_seed(r@),
            final(self).draws() == old(self).draws().push(r@),
    {
        let seed = random_seed();
        self.drawn = Ghost(self.drawn@.push(seed@));
        seed
    }
}

/// `count` generated seeds, each a draw of its own: they are the `count`
/// latest draws of the source, in order.
fn random_seeds(source: &mut SeedSource, count: usize) -> (r: Vec<String>)
    ensures
        r@.len() == count,
        forall|i: int| 0 <= i < count ==> is_generated_seed(#[trigger] r@[i]@),
        final(source).draws() == old(source).draws() + strings_view(r@),
{
    let mut seeds: Vec<String> = Vec::new();
    let mut i: usize = 0;
    while i < count
        invariant
            i <= count,
            seeds@.len() == i,
            forall|j: int| 0 <= j < i ==> is_generated_seed(#[trigger] seeds@[j]@),
            source.draws() == old(source).draws() + strings_view(seeds@),
        decreases count - i,
    {
        let ghost before = seeds@;
        let seed = source.draw();
        seeds.push(seed);
        assert(strings_view(seeds@) =~= strings_view(before).push(seeds@[i as int]@));
        i = i + 1;
    }
    seeds
}

/// The seeds of a generated chain spec drawn from `source`: one for each
/// authority (at least one authority), one for each endowed account, and
/// one for the sudo account, each of `SEED_LENGTH` random alphanumeric
/// characters and each a separate draw: together, in that order, they are
/// the latest draws of the source.
pub fn generate_seeds_from(source: &mut SeedSource, authorities: usize, endowed: usize) -> (r: (
    Vec<String>,
    Vec<String>,
    String,
))
    ensures
        r.0@.len() == if authorities > 1 { authorities } else { 1 },
        r.1@.len() == endowed,
        forall|i: int| 0 <= i < r.0@.len() ==> is_generated_seed(#[trigger] r.0@[i]@),
        forall|i: int| 0 <= i < r.1@.len() ==> is_generated_seed(#[trigger] r.1@[i]@),
        is_generated_seed(r.2@),
        final(source).draws() == old(source).draws() + strings_view(r.0@) + strings_view(r.1@) + seq![r.2@],
{
    let authorities = if authorities > 1 { authorities } else { 1 };
    let authority_seeds = random_seeds(source, authorities);
    let endowed_seeds = random_seeds(source, endowed);
    let sudo_seed = source.draw();
    (authority_seeds, endowed_seeds, sudo_seed)
}

/// The seeds of a generated chain spec: one for each authority (at least
/// one authority), one for each endowed account, and one for the sudo
/// account, each of `SEED_LENGTH` random alphanumeric characters and each
/// drawn separately.
pub fn generate_seeds(authorities: usize, endowed: usize) -> (r: (Vec<String>, Vec<String>, String))
    ensures
        r.0@.len() == if authorities > 1 { authorities } else { 1 },
        r.1@.len() == endowed,
        forall|i: int| 0 <= i < r.0@.len() ==> is_generated_seed(#[trigger] r.0@[i]@),
        forall|i: int| 0 <= i < r.1@.len() ==> is_generated_seed(#[trigger] r.1@[i]@),
        is_generated_seed(r.2@),
{
    let mut source = SeedSource::new();
    generate_seeds_from(&mut source, authorities, endowed)
}

/// No two elements of `s` are equal.
pub open spec fn pairwise_distinct(s: Seq<Seq<char>>) -> bool {
    forall|i: int, j: int| 0 <= i < j < s.len() ==> #[trigger] s[i] != #[trigger] s[j]
}

/// Seeds that are separate draws of a source that never repeats itself are
/// all different: the authorities, the endowed accounts and the sudo
/// account each get their own seed.
pub proof fn law_separate_draws_give_distinct_seeds(
    before: Seq<Seq<char>>,
    after: Seq<Seq<char>>,
    authority_seeds: Seq<Seq<char>>,
    endowed_seeds: Seq<Seq<char>>,
    sudo_seed: Seq<char>,
)
    requires
        after == before + authority_seeds + endowed_seeds + seq![sudo_seed],
        pairwise_distinct(after),
    ensures
        pairwise_distinct(authority_seeds + endowed_seeds + seq![sudo_seed]),
{
    let drawn = authority_seeds + endowed_seeds + seq![sudo_seed];
    assert(after =~= before + drawn);
    assert forall|i: int, j: int| 0 <= i < j < drawn.len() implies #[trigger] drawn[i] != #[trigger] drawn[j] by {
        assert(after[before.len() + i] == drawn[i]);
        assert(after[before.len() + j] == drawn[j]);
    }
}

/// The name of the keystore folder of the authority with index `n`.
pub fn authority_keystore_name(n: usize) -> (r: String)
    ensures
        r@ == "auth-"@ + decimal(n as nat),
{
    let mut name = String::from_str("auth-");
    let index = decimal_string(n);
    name.append(index.as_str());
    name
}

} // verus!
