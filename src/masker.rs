//! The masking transform: finds sensitive values in inserts and replaces them
//! with synthetic ones of the same shape.
use vstd::prelude::*;
use crate::cursor::{upper, to_upper, same_chars};
use crate::model::{views, Insert, InsertV, InsertValue, Row, InsertValueV};
use crate::text::{chars_of, string_of};

verus! {

/// Whether the regular expression `pattern` compiles.
pub uninterp spec fn regex_valid(pattern: Seq<char>) -> bool;

/// Whether the regular expression `pattern` matches somewhere in `text`.
pub uninterp spec fn regex_matches(pattern: Seq<char>, text: Seq<char>) -> bool;

/// Relies on `regex::Regex::new`, which fails on a pattern that does not compile,
/// and on `regex::Regex::is_match`, true where the pattern matches somewhere in the text.
#[verifier::external_body]
fn regex_search(pattern: &str, text: &str) -> (r: Option<bool>)
    ensures
        r is Some <==> regex_valid(pattern@),
        r matches Some(b) ==> b == regex_matches(pattern@, text@),
{
    match regex::Regex::new(pattern) {
        Ok(re) => Some(re.is_match(text)),
        Err(_) => None,
    }
}

/// Relies on `uuid::Uuid::new_v4`, whose bits come from the system's random source:
/// any value.
#[verifier::external_body]
fn random_seed() -> (r: u64) {
    uuid::Uuid::new_v4().as_u64_pair().0
}

/// A seed for the generators, drawn from the system's random source.
pub fn fresh_seed() -> (r: u64) {
    random_seed()
}

/// A named regular expression.
#[derive(Clone, Debug)]
pub struct Pattern {
    pub name: Option<String>,
    pub regex: String,
}

/// A generator rule for a column or pattern identifier, e.g. `contact::email()`.
#[derive(Clone, Debug)]
pub struct Rule {
    pub key: String,
    pub generator: String,
}

/// Which columns and values are sensitive, and how to replace them.
#[derive(Clone, Debug)]
pub struct MaskingConfig {
    pub columns: Vec<String>,
    pub patterns: Vec<Pattern>,
    pub rules: Vec<Rule>,
}

/// The view of a [`MaskingConfig`]: column names, regular expressions, and rules as pairs.
pub struct MaskingConfigV {
    pub columns: Seq<Seq<char>>,
    pub patterns: Seq<Seq<char>>,
    pub rules: Seq<(Seq<char>, Seq<char>)>,
}

impl View for Pattern {
    type V = Seq<char>;

    open spec fn view(&self) -> Seq<char> {
        self.regex@
    }
}

impl View for Rule {
    type V = (Seq<char>, Seq<char>);

    open spec fn view(&self) -> (Seq<char>, Seq<char>) {
        (self.key@, self.generator@)
    }
}

impl View for MaskingConfig {
    type V = MaskingConfigV;

    open spec fn view(&self) -> MaskingConfigV {
        MaskingConfigV {
            columns: views(self.columns@),
            patterns: views(self.patterns@),
            rules: views(self.rules@),
        }
    }
}

/// The kinds of synthetic values.
#[derive(Clone, Copy, Debug, PartialEq, Eq, Structural)]
pub enum GeneratorKind {
    Email,
    Name,
    Phone,
    Word,
}

/// Why a masking run failed.
#[derive(Clone, Debug, PartialEq, Eq)]
pub enum MaskError {
    /// A configured pattern does not compile.
    InvalidPattern { regex: String },
    /// A configured rule names no known generator.
    UnknownGenerator { rule: String },
}

/// Whether `needle` occurs in `hay`.
pub open spec fn occurs(hay: Seq<char>, needle: Seq<char>) -> bool {
    exists|i: int| 0 <= i && i + needle.len() <= hay.len() && #[trigger] hay.subrange(i, i + needle.len()) == needle
}

pub fn occurs_in(hay: &Vec<char>, needle: &Vec<char>) -> (r: bool)
    ensures
        r == occurs(hay@, needle@),
{
    if needle.len() > hay.len() {
        return false;
    }
    let last = hay.len() - needle.len();
    let mut i: usize = 0;
    loop
        invariant
            last == hay@.len() - needle@.len(),
            i <= last,
            forall|k: int| 0 <= k < i ==> #[trigger] hay@.subrange(k, k + needle@.len()) != needle@,
        decreases last - i,
    {
        let mut j: usize = 0;
        let mut same = true;
        while j < needle.len()
            invariant
                j <= needle@.len(),
                i <= last,
                last == hay@.len() - needle@.len(),
                hay@.len() == hay.len(),
                needle@.len() == needle.len(),
                same == forall|m: int| 0 <= m < j ==> hay@[i + m] == needle@[m],
            decreases needle@.len() - j,
        {
            if hay[i + j] != needle[j] {
                same = false;
            }
            j = j + 1;
        }
        if same {
            proof {
                assert(hay@.subrange(i as int, i + needle@.len()) =~= needle@);
            }
            return true;
        }
        proof {
            assert(hay@.subrange(i as int, i + needle@.len()) != needle@) by {
                let m = choose|m: int| 0 <= m < needle@.len() && hay@[i + m] != needle@[m];
                assert(hay@.subrange(i as int, i + needle@.len())[m] != needle@[m]);
            }
        }
        if i == last {
            proof {
                assert forall|k: int| 0 <= k && k + needle@.len() <= hay@.len() implies #[trigger] hay@.subrange(k, k + needle@.len()) != needle@ by {
                    assert(k < i || k == i);
                }
            }
            return false;
        }
        i = i + 1;
    }
}

/// The kind of generator that a rule name denotes, by the word it contains.
pub open spec fn rule_kind(rule: Seq<char>) -> Option<GeneratorKind> {
    let u = upper(rule);
    if occurs(u, "EMAIL"@) {
        Some(GeneratorKind::Email)
    } else if occurs(u, "NAME"@) {
        Some(GeneratorKind::Name)
    } else if occurs(u, "PHONE"@) {
        Some(GeneratorKind::Phone)
    } else if occurs(u, "WORD"@) {
        Some(GeneratorKind::Word)
    } else {
        None
    }
}

/// The generator used for a column that no rule names: by the word that its name
/// contains, the word generator otherwise.
pub open spec fn default_kind(column: Seq<char>) -> GeneratorKind {
    let u = upper(column);
    if occurs(u, "EMAIL"@) {
        GeneratorKind::Email
    } else if occurs(u, "NAME"@) {
        GeneratorKind::Name
    } else if occurs(u, "PHONE"@) {
        GeneratorKind::Phone
    } else {
        GeneratorKind::Word
    }
}

fn lit_upper_occurs(u: &Vec<char>, lit: &str) -> (r: bool)
    ensures
        r == occurs(u@, lit@),
{
    let l = chars_of(lit);
    occurs_in(u, &l)
}

pub fn rule_kind_of(rule: &String) -> (r: Option<GeneratorKind>)
    ensures
        r == rule_kind(rule@),
{
    let u = to_upper(&chars_of(rule.as_str()));
    if lit_upper_occurs(&u, "EMAIL") {
        Some(GeneratorKind::Email)
    } else if lit_upper_occurs(&u, "NAME") {
        Some(GeneratorKind::Name)
    } else if lit_upper_occurs(&u, "PHONE") {
        Some(GeneratorKind::Phone)
    } else if lit_upper_occurs(&u, "WORD") {
        Some(GeneratorKind::Word)
    } else {
        None
    }
}

pub fn default_kind_of(column: &String) -> (r: GeneratorKind)
    ensures
        r == default_kind(column@),
{
    let u = to_upper(&chars_of(column.as_str()));
    if lit_upper_occurs(&u, "EMAIL") {
        GeneratorKind::Email
    } else if lit_upper_occurs(&u, "NAME") {
        GeneratorKind::Name
    } else if lit_upper_occurs(&u, "PHONE") {
        GeneratorKind::Phone
    } else {
        GeneratorKind::Word
    }
}

/// The index of the first rule keyed `key`, or -1.
pub open spec fn rule_position(rules: Seq<(Seq<char>, Seq<char>)>, key: Seq<char>) -> int
    decreases rules.len(),
{
    if rules.len() == 0 {
        -1
    } else {
        let k = rule_position(rules.drop_last(), key);
        if k >= 0 {
            k
        } else if rules.last().0 == key {
            rules.len() - 1
        } else {
            -1
        }
    }
}

/// The generator for a column: the one of the first rule keyed by its name where
/// there is one, the default otherwise.
pub open spec fn kind_for(c: MaskingConfigV, column: Seq<char>) -> GeneratorKind {
    let k = rule_position(c.rules, column);
    if k >= 0 && rule_kind(c.rules[k].1) is Some {
        rule_kind(c.rules[k].1)->Some_0
    } else {
        default_kind(column)
    }
}

/// Whether `s` is one of the configured column names, ASCII case ignored.
pub open spec fn listed(c: MaskingConfigV, s: Seq<char>) -> bool {
    exists|i: int| 0 <= i < c.columns.len() && upper(#[trigger] c.columns[i]) == upper(s)
}

/// Whether some configured pattern matches `s`.
pub open spec fn pattern_hit(c: MaskingConfigV, s: Seq<char>) -> bool {
    exists|i: int| 0 <= i < c.patterns.len() && regex_matches(#[trigger] c.patterns[i], s)
}

/// Whether `s` is sensitive: a listed column name, or matched by a pattern.
pub open spec fn sensitive(c: MaskingConfigV, s: Seq<char>) -> bool {
    listed(c, s) || pattern_hit(c, s)
}

/// Every pattern compiles and every rule names a known generator.
pub open spec fn config_ok(c: MaskingConfigV) -> bool {
    &&& forall|i: int| 0 <= i < c.patterns.len() ==> regex_valid(#[trigger] c.patterns[i])
    &&& forall|i: int| 0 <= i < c.rules.len() ==> (#[trigger] rule_kind(c.rules[i].1)) is Some
}

/// The decimal digits of `n`.
pub open spec fn decimal(n: nat) -> Seq<char>
    decreases n,
{
    if n < 10 {
        seq![((n + 48) as u8) as char]
    } else {
        decimal(n / 10).push((((n % 10) + 48) as u8) as char)
    }
}

pub fn decimal_of(n: u64) -> (r: String)
    ensures
        r@ == decimal(n as nat),
{
    let v = decimal_chars(n);
    string_of(&v)
}

fn decimal_chars(n: u64) -> (r: Vec<char>)
    ensures
        r@ == decimal(n as nat),
    decreases n,
{
    if n < 10 {
        let mut v: Vec<char> = Vec::new();
        v.push(((n + 48) as u8) as char);
        proof {
            assert(v@ =~= decimal(n as nat));
        }
        v
    } else {
        let mut v = decimal_chars(n / 10);
        v.push((((n % 10) + 48) as u8) as char);
        v
    }
}

/// Names that the name generator picks from.
pub open spec fn name_choice(k: int) -> Seq<char> {
    if k == 0 {
        "Alex Morgan"@
    } else if k == 1 {
        "Sam Taylor"@
    } else if k == 2 {
        "Jordan Lee"@
    } else {
        "Casey Brooks"@
    }
}

/// The synthetic value that a generator makes from `seed`.
pub open spec fn fake(kind: GeneratorKind, seed: u64) -> Seq<char> {
    match kind {
        GeneratorKind::Email => "user"@ + decimal((seed % 100000) as nat) + "@example.com"@,
        GeneratorKind::Name => name_choice((seed % 4) as int),
        GeneratorKind::Phone => "555-"@ + decimal((1000 + seed % 9000) as nat),
        GeneratorKind::Word => "masked-"@ + decimal((seed % 100000) as nat),
    }
}

/// A replacement that differs from the prior value: `x` is put in front where the
/// generated value happens to equal it.
pub open spec fn replacement(prior: Seq<char>, generated: Seq<char>) -> Seq<char> {
    if generated == prior {
        "x"@ + generated
    } else {
        generated
    }
}

impl GeneratorKind {
    pub fn generate(&self, seed: u64) -> (r: String)
        ensures
            r@ == fake(*self, seed),
    {
        match self {
            GeneratorKind::Email => {
                let s = String::from_str("user").concat(decimal_of(seed % 100000).as_str());
                s.concat("@example.com")
            },
            GeneratorKind::Name => {
                let k = seed % 4;
                if k == 0 {
                    String::from_str("Alex Morgan")
                } else if k == 1 {
                    String::from_str("Sam Taylor")
                } else if k == 2 {
                    String::from_str("Jordan Lee")
                } else {
                    String::from_str("Casey Brooks")
                }
            },
            GeneratorKind::Phone => String::from_str("555-").concat(
                decimal_of(1000 + seed % 9000).as_str(),
            ),
            GeneratorKind::Word => String::from_str("masked-").concat(
                decimal_of(seed % 100000).as_str(),
            ),
        }
    }
}

/// A value different from `prior`, of the shape that the generator `kind` makes.
pub fn replace_value(prior: &String, kind: GeneratorKind, seed: u64) -> (r: String)
    ensures
        r@ == replacement(prior@, fake(kind, seed)),
        r@ != prior@,
{
    let g = kind.generate(seed);
    if g.eq(prior) {
        let r = String::from_str("x").concat(g.as_str());
        proof {
            reveal_strlit("x");
            assert(r@.len() == prior@.len() + 1);
        }
        r
    } else {
        g
    }
}

/// The text of a value as the matcher sees it: a text value without its quotes.
pub open spec fn bare(v: InsertValueV) -> Seq<char> {
    match v {
        InsertValueV::Text(value) => value,
        InsertValueV::Number(value) => value,
        InsertValueV::Null => "NULL"@,
        InsertValueV::Raw(value) => value,
    }
}

pub fn bare_text(v: &InsertValue) -> (r: String)
    ensures
        r@ == bare(v@),
{
    match v {
        InsertValue::Text { value } => value.clone(),
        InsertValue::Number { value } => value.clone(),
        InsertValue::Null => String::from_str("NULL"),
        InsertValue::Raw { value } => value.clone(),
    }
}

/// The seed of the value in column `i`.
pub open spec fn seed_at(seed: u64, i: int) -> u64 {
    seed.wrapping_add(i as u64)
}

/// What masking makes of the value `v` of the column `column` at position `i`.
pub open spec fn masked_as(c: MaskingConfigV, column: Seq<char>, v: InsertValueV, w: InsertValueV, seed: u64, i: int) -> bool {
    if sensitive(c, bare(v)) || sensitive(c, column) {
        w == InsertValueV::Text(replacement(bare(v), fake(kind_for(c, column), seed_at(seed, i))))
    } else {
        w == v
    }
}

/// What masking makes of a row: each value paired with its column is masked or
/// kept; values beyond the column list are kept.
pub open spec fn row_masked(c: MaskingConfigV, columns: Seq<Seq<char>>, old_row: Seq<InsertValueV>, new_row: Seq<InsertValueV>, seed: u64) -> bool {
    &&& new_row.len() == old_row.len()
    &&& forall|i: int| 0 <= i < old_row.len() ==> if i < columns.len() {
        masked_as(c, columns[i], #[trigger] old_row[i], new_row[i], seed, i)
    } else {
        new_row[i] == old_row[i]
    }
}

/// What masking makes of an insert: same table and columns, each row masked.
pub open spec fn insert_masked(c: MaskingConfigV, x: InsertV, y: InsertV, seed: u64) -> bool {
    &&& y.table_name == x.table_name
    &&& y.column_names == x.column_names
    &&& y.values.len() == x.values.len()
    &&& forall|r: int| 0 <= r < x.values.len() ==> row_masked(c, x.column_names, #[trigger] x.values[r], y.values[r], seed)
}

impl MaskingConfig {
    /// Whether `s` is one of the configured column names, ASCII case ignored.
    pub fn lists(&self, s: &String) -> (r: bool)
        ensures
            r == listed(self@, s@),
    {
        let u = to_upper(&chars_of(s.as_str()));
        let mut i: usize = 0;
        while i < self.columns.len()
            invariant
                i <= self.columns@.len(),
                u@ == upper(s@),
                forall|k: int| 0 <= k < i ==> upper(#[trigger] views(self.columns@)[k]) != upper(s@),
            decreases self.columns@.len() - i,
        {
            let c = to_upper(&chars_of(self.columns[i].as_str()));
            if same_chars(&c, &u) {
                proof {
                    assert(views(self.columns@)[i as int] == self.columns@[i as int]@);
                    assert(upper(self@.columns[i as int]) == upper(s@));
                }
                return true;
            }
            i = i + 1;
        }
        false
    }

    /// Whether some pattern matches `s`; every pattern is tried.
    pub fn matches_pattern(&self, s: &String) -> (r: Result<bool, MaskError>)
        ensures
            r matches Ok(b) ==> b == pattern_hit(self@, s@),
            r is Ok <==> forall|i: int| 0 <= i < self@.patterns.len() ==> regex_valid(#[trigger] self@.patterns[i]),
    {
        let mut hit = false;
        let mut i: usize = 0;
        while i < self.patterns.len()
            invariant
                i <= self.patterns@.len(),
                forall|k: int| 0 <= k < i ==> regex_valid(#[trigger] views(self.patterns@)[k]),
                hit == exists|k: int| 0 <= k < i && regex_matches(#[trigger] views(self.patterns@)[k], s@),
            decreases self.patterns@.len() - i,
        {
            proof {
                assert(views(self.patterns@)[i as int] == self.patterns@[i as int].regex@);
            }
            match regex_search(self.patterns[i].regex.as_str(), s.as_str()) {
                Some(b) => {
                    if b {
                        hit = true;
                    }
                },
                None => {
                    proof {
                        assert(!regex_valid(self@.patterns[i as int]));
                    }
                    return Err(MaskError::InvalidPattern { regex: self.patterns[i].regex.clone() });
                },
            }
            i = i + 1;
        }
        Ok(hit)
    }

    /// Whether `s` is sensitive: a listed column name, or matched by a pattern.
    pub fn filter_column(&self, s: &String) -> (r: Result<bool, MaskError>)
        ensures
            r matches Ok(b) ==> b == sensitive(self@, s@),
            r is Ok <==> forall|i: int| 0 <= i < self@.patterns.len() ==> regex_valid(#[trigger] self@.patterns[i]),
    {
        let l = self.lists(s);
        let p = self.matches_pattern(s)?;
        Ok(l || p)
    }

    /// Fails where a pattern does not compile or a rule names no known generator.
    pub fn validate(&self) -> (r: Result<(), MaskError>)
        ensures
            r is Ok <==> config_ok(self@),
    {
        let mut i: usize = 0;
        while i < self.patterns.len()
            invariant
                i <= self.patterns@.len(),
                forall|k: int| 0 <= k < i ==> regex_valid(#[trigger] views(self.patterns@)[k]),
            decreases self.patterns@.len() - i,
        {
            proof {
                assert(views(self.patterns@)[i as int] == self.patterns@[i as int].regex@);
            }
            if regex_search(self.patterns[i].regex.as_str(), "").is_none() {
                proof {
                    assert(!regex_valid(self@.patterns[i as int]));
                }
                return Err(MaskError::InvalidPattern { regex: self.patterns[i].regex.clone() });
            }
            i = i + 1;
        }
        let mut j: usize = 0;
        while j < self.rules.len()
            invariant
                j <= self.rules@.len(),
                forall|k: int| 0 <= k < self.patterns@.len() ==> regex_valid(#[trigger] views(self.patterns@)[k]),
                forall|k: int| 0 <= k < j ==> (#[trigger] rule_kind(views(self.rules@)[k].1)) is Some,
            decreases self.rules@.len() - j,
        {
            proof {
                assert(views(self.rules@)[j as int].1 == self.rules@[j as int].generator@);
            }
            if rule_kind_of(&self.rules[j].generator).is_none() {
                return Err(MaskError::UnknownGenerator { rule: self.rules[j].generator.clone() });
            }
            j = j + 1;
        }
        Ok(())
    }

    /// The generator for a column.
    pub fn generator_for(&self, column: &String) -> (r: GeneratorKind)
        ensures
            r == kind_for(self@, column@),
    {
        let mut i: usize = 0;
        while i < self.rules.len()
            invariant
                i <= self.rules@.len(),
                rule_position(views(self.rules@.subrange(0, i as int)), column@) == -1,
            decreases self.rules@.len() - i,
        {
            let ghost pre = views(self.rules@.subrange(0, i as int));
            let ghost next = views(self.rules@.subrange(0, i + 1));
            proof {
                assert(next.drop_last() =~= pre);
                assert(next.last() == self.rules@[i as int]@);
            }
            if self.rules[i].key.eq(column) {
                proof {
                    lemma_rule_prefix(views(self.rules@), i + 1, column@);
                    assert(views(self.rules@.subrange(0, i + 1)) =~= views(self.rules@).subrange(0, i + 1));
                }
                return match rule_kind_of(&self.rules[i].generator) {
                    Some(k) => k,
                    None => default_kind_of(column),
                };
            }
            i = i + 1;
        }
        proof {
            assert(self.rules@.subrange(0, self.rules@.len() as int) =~= self.rules@);
        }
        default_kind_of(column)
    }
}

/// A found rule position stays the same when more rules follow.
pub proof fn lemma_rule_prefix(s: Seq<(Seq<char>, Seq<char>)>, n: int, key: Seq<char>)
    requires
        0 <= n <= s.len(),
    ensures
        rule_position(s.subrange(0, n), key) >= 0 ==> rule_position(s, key) == rule_position(s.subrange(0, n), key),
        rule_position(s.subrange(0, n), key) < n,
    decreases s.len() - n,
{
    lemma_rule_position_bound(s.subrange(0, n), key);
    if n < s.len() {
        lemma_rule_prefix(s, n + 1, key);
        assert(s.subrange(0, n + 1).drop_last() =~= s.subrange(0, n));
    } else {
        assert(s.subrange(0, n) =~= s);
    }
}

proof fn lemma_rule_position_bound(s: Seq<(Seq<char>, Seq<char>)>, key: Seq<char>)
    ensures
        -1 <= rule_position(s, key) < s.len(),
        rule_position(s, key) >= 0 ==> s[rule_position(s, key)].0 == key,
    decreases s.len(),
{
    if s.len() > 0 {
        lemma_rule_position_bound(s.drop_last(), key);
    }
}

/// What masking makes of a batch of inserts: each one masked, in order.
pub open spec fn all_masked(c: MaskingConfigV, xs: Seq<Insert>, ys: Seq<Insert>, seed: u64) -> bool {
    &&& ys.len() == xs.len()
    &&& forall|k: int| 0 <= k < xs.len() ==> insert_masked(c, #[trigger] xs[k]@, ys[k]@, seed)
}

/// Masks inserts against a configuration.
pub struct Transform<'a> {
    pub config: &'a MaskingConfig,
}

impl<'a> Transform<'a> {
    pub fn new(config: &'a MaskingConfig) -> (r: Self)
        ensures
            r.config == config,
    {
        Transform { config }
    }

    /// Masks one value; `column` is the name of its column and `i` its position.
    fn mask_value(&self, column: &String, v: &InsertValue, seed: u64, i: usize) -> (r: InsertValue)
        requires
            config_ok(self.config@),
        ensures
            masked_as(self.config@, column@, v@, r@, seed, i as int),
    {
        let text = bare_text(v);
        let by_value = match self.config.filter_column(&text) {
            Ok(b) => b,
            Err(_) => false,
        };
        let by_column = match self.config.filter_column(column) {
            Ok(b) => b,
            Err(_) => false,
        };
        if by_value || by_column {
            let kind = self.config.generator_for(column);
            let value = replace_value(&text, kind, seed.wrapping_add(i as u64));
            InsertValue::Text { value }
        } else {
            v.clone_value()
        }
    }

    /// Masks one row.
    pub fn mask_row(&self, columns: &Vec<String>, row: &Row, seed: u64) -> (r: Row)
        requires
            config_ok(self.config@),
        ensures
            row_masked(self.config@, views(columns@), row@, r@, seed),
    {
        let mut out: Vec<InsertValue> = Vec::new();
        let mut i: usize = 0;
        while i < row.0.len()
            invariant
                config_ok(self.config@),
                i <= row@.len(),
                out@.len() == i,
                forall|k: int| 0 <= k < i ==> if k < columns@.len() {
                    masked_as(self.config@, views(columns@)[k], #[trigger] row@[k], out@[k]@, seed, k)
                } else {
                    out@[k]@ == row@[k]
                },
            decreases row@.len() - i,
        {
            let w = if i < columns.len() {
                proof {
                    assert(views(columns@)[i as int] == columns@[i as int]@);
                }
                self.mask_value(&columns[i], &row.0[i], seed, i)
            } else {
                row.0[i].clone_value()
            };
            out.push(w);
            i = i + 1;
        }
        Row(out)
    }

    /// Masks each insert, in place, with the values that the generators make from `seed`.
    /// Fails, changing nothing, where the configuration does not validate.
    pub fn mask_dml_stmts_seeded(&self, dmls: &mut Vec<Insert>, seed: u64) -> (r: Result<(), MaskError>)
        ensures
            r is Ok <==> config_ok(self.config@),
            r is Ok ==> all_masked(self.config@, old(dmls)@, final(dmls)@, seed),
            r is Err ==> final(dmls)@ == old(dmls)@,
    {
        self.config.validate()?;
        let mut out: Vec<Insert> = Vec::new();
        let mut k: usize = 0;
        while k < dmls.len()
            invariant
                config_ok(self.config@),
                k <= dmls@.len(),
                dmls@ == old(dmls)@,
                out@.len() == k,
                forall|j: int| 0 <= j < k ==> insert_masked(self.config@, #[trigger] dmls@[j]@, out@[j]@, seed),
            decreases dmls@.len() - k,
        {
            let x = self.mask_insert(&dmls[k], seed);
            out.push(x);
            k = k + 1;
        }
        *dmls = out;
        Ok(())
    }

    /// Masks one insert.
    pub fn mask_insert(&self, x: &Insert, seed: u64) -> (r: Insert)
        requires
            config_ok(self.config@),
        ensures
            insert_masked(self.config@, x@, r@, seed),
    {
        let mut rows: Vec<Row> = Vec::new();
        let mut i: usize = 0;
        while i < x.values.len()
            invariant
                config_ok(self.config@),
                i <= x.values@.len(),
                rows@.len() == i,
                forall|j: int| 0 <= j < i ==> row_masked(self.config@, x@.column_names, #[trigger] x.values@[j]@, rows@[j]@, seed),
            decreases x.values@.len() - i,
        {
            let row = self.mask_row(&x.column_names, &x.values[i], seed);
            rows.push(row);
            i = i + 1;
        }
        let r = Insert {
            table_name: x.table_name.clone(),
            column_names: crate::model::duplicate_vec(&x.column_names),
            values: rows,
        };
        proof {
            assert forall|j: int| 0 <= j < x@.values.len() implies row_masked(self.config@, x@.column_names, #[trigger] x@.values[j], r@.values[j], seed) by {
                assert(x@.values[j] == x.values@[j]@);
                assert(r@.values[j] == rows@[j]@);
            }
        }
        r
    }

    /// Masks each insert, in place, with generators seeded from the system's random
    /// source. Fails, changing nothing, where the configuration does not validate.
    pub fn mask_dml_stmts(&self, dmls: &mut Vec<Insert>) -> (r: Result<(), MaskError>)
        ensures
            r is Ok <==> config_ok(self.config@),
            r is Ok ==> exists|seed: u64| #[trigger] all_masked(self.config@, old(dmls)@, final(dmls)@, seed),
            r is Err ==> final(dmls)@ == old(dmls)@,
    {
        let seed = fresh_seed();
        self.mask_dml_stmts_seeded(dmls, seed)
    }
}

} // verus!
