//! The audit catalog: seven multi-point control rules, each scanned over every
//! window of a finished series.

use vstd::prelude::*;

verus! {

/// A rule of the audit catalog.
#[derive(Clone, Copy, Debug, PartialEq, Eq, Structural)]
pub enum Rule {
    /// "1-3s": one observation beyond three standard deviations.
    OneThreeS,
    /// "2-2s": two consecutive observations beyond two standard deviations, same side.
    TwoTwoS,
    /// "R-4s": two consecutive observations beyond two standard deviations, opposite sides.
    RFourS,
    /// "3-1s": three consecutive observations beyond one standard deviation, same side.
    ThreeOneS,
    /// "4-1s": four consecutive observations beyond one standard deviation, same side.
    FourOneS,
    /// "7-T": seven consecutive observations strictly rising or strictly falling.
    SevenT,
    /// "10x": ten consecutive observations strictly on one side of the target.
    TenX,
}

/// `x` lies more than `margin` above `target`.
pub open spec fn above(x: i64, target: int, margin: int) -> bool {
    x as int - target > margin
}

/// `x` lies more than `margin` below `target`.
pub open spec fn below(x: i64, target: int, margin: int) -> bool {
    target - x as int > margin
}

/// `x` lies more than `margin` away from `target`, on either side.
pub open spec fn beyond(x: i64, target: int, margin: int) -> bool {
    above(x, target, margin) || below(x, target, margin)
}

/// The `len` observations from `start` on all lie more than `margin` above `target`.
pub open spec fn run_above(s: Seq<i64>, start: int, len: int, target: int, margin: int) -> bool {
    forall|j: int| start <= j < start + len ==> above(#[trigger] s[j], target, margin)
}

/// The `len` observations from `start` on all lie more than `margin` below `target`.
pub open spec fn run_below(s: Seq<i64>, start: int, len: int, target: int, margin: int) -> bool {
    forall|j: int| start <= j < start + len ==> below(#[trigger] s[j], target, margin)
}

/// The `len` observations from `start` on all lie more than `margin` away from
/// `target`, and all on the same side of it.
pub open spec fn same_side_run(s: Seq<i64>, start: int, len: int, target: int, margin: int) -> bool {
    run_above(s, start, len, target, margin) || run_below(s, start, len, target, margin)
}

/// One of `a`, `b` lies more than `margin` above `target` and the other more
/// than `margin` below it.
pub open spec fn opposite_extremes(a: i64, b: i64, target: int, margin: int) -> bool {
    (above(a, target, margin) && below(b, target, margin)) || (below(a, target, margin) && above(
        b,
        target,
        margin,
    ))
}

/// Each of the `len` observations from `start` on is smaller than its successor.
pub open spec fn rising(s: Seq<i64>, start: int, len: int) -> bool {
    forall|j: int| start <= j < start + len - 1 ==> (#[trigger] s[j]) < s[j + 1]
}

/// Each of the `len` observations from `start` on is larger than its successor.
pub open spec fn falling(s: Seq<i64>, start: int, len: int) -> bool {
    forall|j: int| start <= j < start + len - 1 ==> (#[trigger] s[j]) > s[j + 1]
}

/// The number of consecutive observations that a rule looks at.
pub open spec fn window_len(rule: Rule) -> int {
    match rule {
        Rule::OneThreeS => 1,
        Rule::TwoTwoS => 2,
        Rule::RFourS => 2,
        Rule::ThreeOneS => 3,
        Rule::FourOneS => 4,
        Rule::SevenT => 7,
        Rule::TenX => 10,
    }
}

/// The rule's pattern occurs in the window of `s` that begins at `start`.
pub open spec fn window_matches(rule: Rule, s: Seq<i64>, start: int, target: int, std_dev: int) -> bool {
    match rule {
        Rule::OneThreeS => beyond(s[start], target, 3 * std_dev),
        Rule::TwoTwoS => same_side_run(s, start, 2, target, 2 * std_dev),
        Rule::RFourS => opposite_extremes(s[start], s[start + 1], target, 2 * std_dev),
        Rule::ThreeOneS => same_side_run(s, start, 3, target, std_dev),
        Rule::FourOneS => same_side_run(s, start, 4, target, std_dev),
        Rule::SevenT => rising(s, start, 7) || falling(s, start, 7),
        Rule::TenX => same_side_run(s, start, 10, target, 0),
    }
}

/// The rule is violated: its pattern occurs in some window that lies wholly
/// inside the series.
pub open spec fn rule_violated(rule: Rule, s: Seq<i64>, target: int, std_dev: int) -> bool {
    exists|start: int|
        0 <= start && start + window_len(rule) <= s.len() && #[trigger] window_matches(
            rule,
            s,
            start,
            target,
            std_dev,
        )
}

/// Some `len` consecutive observations of `s` form a same-side run beyond `margin`.
pub open spec fn has_same_side_run(s: Seq<i64>, len: int, target: int, margin: int) -> bool {
    exists|start: int|
        0 <= start && start + len <= s.len() && #[trigger] same_side_run(s, start, len, target, margin)
}

/// Decides whether the `len` observations from `start` on all lie more than
/// `margin` above the target.
pub(crate) fn window_above(data: &[i64], start: usize, len: usize, target: i64, margin: i128) -> (found: bool)
    requires
        start + len <= data@.len(),
    ensures
        found == run_above(data@, start as int, len as int, target as int, margin as int),
{
    let n = data.len();
    let end: usize = start + len;
    let mut j: usize = start;
    while j < end
        invariant
            start <= j <= end == start + len,
            end <= n == data@.len(),
            run_above(data@, start as int, j - start, target as int, margin as int),
        decreases end - j,
    {
        if data[j] as i128 - target as i128 <= margin {
            return false;
        }
        j += 1;
    }
    true
}

/// Decides whether the `len` observations from `start` on all lie more than
/// `margin` below the target.
pub(crate) fn window_below(data: &[i64], start: usize, len: usize, target: i64, margin: i128) -> (found: bool)
    requires
        start + len <= data@.len(),
    ensures
        found == run_below(data@, start as int, len as int, target as int, margin as int),
{
    let n = data.len();
    let end: usize = start + len;
    let mut j: usize = start;
    while j < end
        invariant
            start <= j <= end == start + len,
            end <= n == data@.len(),
            run_below(data@, start as int, j - start, target as int, margin as int),
        decreases end - j,
    {
        if target as i128 - data[j] as i128 <= margin {
            return false;
        }
        j += 1;
    }
    true
}

/// Decides whether the `len` observations from `start` on form a same-side run.
fn window_on_one_side(data: &[i64], start: usize, len: usize, target: i64, margin: i128) -> (found: bool)
    requires
        start + len <= data@.len(),
    ensures
        found == same_side_run(data@, start as int, len as int, target as int, margin as int),
{
    window_above(data, start, len, target, margin) || window_below(data, start, len, target, margin)
}

/// For the four rules that look for a same-side run, the rule is violated
/// exactly when the series holds such a run of the rule's length and margin.
proof fn lemma_same_side_rule(rule: Rule, s: Seq<i64>, target: int, std_dev: int, len: int, margin: int)
    requires
        (rule == Rule::TwoTwoS && len == 2 && margin == 2 * std_dev) || (rule == Rule::ThreeOneS
            && len == 3 && margin == std_dev) || (rule == Rule::FourOneS && len == 4 && margin
            == std_dev) || (rule == Rule::TenX && len == 10 && margin == 0),
    ensures
        rule_violated(rule, s, target, std_dev) == has_same_side_run(s, len, target, margin),
{
    if has_same_side_run(s, len, target, margin) {
        let w = choose|start: int|
            0 <= start && start + len <= s.len() && #[trigger] same_side_run(
                s,
                start,
                len,
                target,
                margin,
            );
        assert(window_matches(rule, s, w, target, std_dev));
    }
    if rule_violated(rule, s, target, std_dev) {
        let w = choose|start: int|
            0 <= start && start + window_len(rule) <= s.len() && #[trigger] window_matches(
                rule,
                s,
                start,
                target,
                std_dev,
            );
        assert(same_side_run(s, w, len, target, margin));
    }
}

/// Scans every window of `len` observations for a same-side run beyond `margin`.
fn scan_same_side(data: &[i64], len: usize, target: i64, margin: i128) -> (found: bool)
    requires
        len >= 1,
    ensures
        found == has_same_side_run(data@, len as int, target as int, margin as int),
{
    let n = data.len();
    if n < len {
        return false;
    }
    let mut start: usize = 0;
    while start <= n - len
        invariant
            len <= n == data@.len(),
            start <= n - len + 1,
            forall|k: int|
                0 <= k < start ==> !#[trigger] same_side_run(
                    data@,
                    k,
                    len as int,
                    target as int,
                    margin as int,
                ),
        decreases n - len + 1 - start,
    {
        if window_on_one_side(data, start, len, target, margin) {
            return true;
        }
        start += 1;
    }
    false
}

/// 1-3s: some observation lies more than three standard deviations from the target.
pub fn check_1_3s(data: &[i64], target: i64, std_dev: i64) -> (violated: bool)
    ensures
        violated == rule_violated(Rule::OneThreeS, data@, target as int, std_dev as int),
{
    let limit: i128 = 3 * (std_dev as i128);
    let mut i: usize = 0;
    while i < data.len()
        invariant
            i <= data@.len(),
            limit == 3 * std_dev,
            forall|k: int|
                0 <= k < i ==> !#[trigger] window_matches(
                    Rule::OneThreeS,
                    data@,
                    k,
                    target as int,
                    std_dev as int,
                ),
        decreases data@.len() - i,
    {
        let d: i128 = data[i] as i128 - target as i128;
        if d > limit || -d > limit {
            assert(window_matches(Rule::OneThreeS, data@, i as int, target as int, std_dev as int));
            return true;
        }
        i += 1;
    }
    false
}

/// 2-2s: two consecutive observations lie more than two standard deviations
/// from the target, on the same side.
pub fn check_2_2s(data: &[i64], target: i64, std_dev: i64) -> (violated: bool)
    ensures
        violated == rule_violated(Rule::TwoTwoS, data@, target as int, std_dev as int),
{
    proof {
        lemma_same_side_rule(Rule::TwoTwoS, data@, target as int, std_dev as int, 2, 2 * std_dev);
    }
    scan_same_side(data, 2, target, 2 * (std_dev as i128))
}

/// 3-1s: three consecutive observations lie more than one standard deviation
/// from the target, on the same side.
pub fn check_3_1s(data: &[i64], target: i64, std_dev: i64) -> (violated: bool)
    ensures
        violated == rule_violated(Rule::ThreeOneS, data@, target as int, std_dev as int),
{
    proof {
        lemma_same_side_rule(Rule::ThreeOneS, data@, target as int, std_dev as int, 3, std_dev as int);
    }
    scan_same_side(data, 3, target, std_dev as i128)
}

/// 4-1s: four consecutive observations lie more than one standard deviation
/// from the target, on the same side.
pub fn check_4_1s(data: &[i64], target: i64, std_dev: i64) -> (violated: bool)
    ensures
        violated == rule_violated(Rule::FourOneS, data@, target as int, std_dev as int),
{
    proof {
        lemma_same_side_rule(Rule::FourOneS, data@, target as int, std_dev as int, 4, std_dev as int);
    }
    scan_same_side(data, 4, target, std_dev as i128)
}

/// 10x: ten consecutive observations lie strictly on one side of the target.
pub fn check_10x(data: &[i64], target: i64, std_dev: i64) -> (violated: bool)
    ensures
        violated == rule_violated(Rule::TenX, data@, target as int, std_dev as int),
{
    proof {
        lemma_same_side_rule(Rule::TenX, data@, target as int, std_dev as int, 10, 0);
    }
    scan_same_side(data, 10, target, 0)
}

/// R-4s: of two consecutive observations, one lies more than two standard
/// deviations above the target and the other more than two below it.
pub fn check_r_4s(data: &[i64], target: i64, std_dev: i64) -> (violated: bool)
    ensures
        violated == rule_violated(Rule::RFourS, data@, target as int, std_dev as int),
{
    let n = data.len();
    let limit: i128 = 2 * (std_dev as i128);
    let mut i: usize = 1;
    while i < n
        invariant
            1 <= i,
            n == data@.len(),
            limit == 2 * std_dev,
            forall|k: int|
                0 <= k < i - 1 ==> !#[trigger] window_matches(
                    Rule::RFourS,
                    data@,
                    k,
                    target as int,
                    std_dev as int,
                ),
        decreases n - i,
    {
        let d1: i128 = data[i - 1] as i128 - target as i128;
        let d2: i128 = data[i] as i128 - target as i128;
        if (d1 > limit && -d2 > limit) || (-d1 > limit && d2 > limit) {
            assert(window_matches(Rule::RFourS, data@, i - 1, target as int, std_dev as int));
            return true;
        }
        i += 1;
    }
    false
}

/// Decides whether the seven observations from `start` on rise strictly or
/// fall strictly.
fn window_is_trend(data: &[i64], start: usize) -> (found: bool)
    requires
        start + 7 <= data@.len(),
    ensures
        found == (rising(data@, start as int, 7) || falling(data@, start as int, 7)),
{
    let n = data.len();
    let last: usize = start + 6;
    let mut up = true;
    let mut down = true;
    let mut j: usize = start;
    while j < last
        invariant
            start <= j <= last == start + 6,
            last < n == data@.len(),
            up == rising(data@, start as int, j - start + 1),
            down == falling(data@, start as int, j - start + 1),
        decreases last - j,
    {
        if data[j] >= data[j + 1] {
            up = false;
        }
        if data[j] <= data[j + 1] {
            down = false;
        }
        j += 1;
    }
    up || down
}

/// 7-T: seven consecutive observations rise strictly or fall strictly.
pub fn check_7_t(data: &[i64], target: i64, std_dev: i64) -> (violated: bool)
    ensures
        violated == rule_violated(Rule::SevenT, data@, target as int, std_dev as int),
{
    let n = data.len();
    if n < 7 {
        return false;
    }
    let mut start: usize = 0;
    while start <= n - 7
        invariant
            7 <= n == data@.len(),
            start <= n - 6,
            forall|k: int|
                0 <= k < start ==> !#[trigger] window_matches(
                    Rule::SevenT,
                    data@,
                    k,
                    target as int,
                    std_dev as int,
                ),
        decreases n - 6 - start,
    {
        if window_is_trend(data, start) {
            assert(window_matches(Rule::SevenT, data@, start as int, target as int, std_dev as int));
            return true;
        }
        start += 1;
    }
    false
}

/// The catalog, in the order in which a report lists its rules.
pub open spec fn catalog() -> Seq<Rule> {
    seq![
        Rule::OneThreeS,
        Rule::TwoTwoS,
        Rule::RFourS,
        Rule::ThreeOneS,
        Rule::FourOneS,
        Rule::SevenT,
        Rule::TenX,
    ]
}

/// The name under which a report lists a rule.
pub open spec fn rule_name(rule: Rule) -> Seq<char> {
    match rule {
        Rule::OneThreeS => "1-3s"@,
        Rule::TwoTwoS => "2-2s"@,
        Rule::RFourS => "R-4s"@,
        Rule::ThreeOneS => "3-1s"@,
        Rule::FourOneS => "4-1s"@,
        Rule::SevenT => "7-T"@,
        Rule::TenX => "10x"@,
    }
}

impl Rule {
    /// The rule's name, as a report lists it.
    pub fn name(&self) -> (name: String)
        ensures
            name@ == rule_name(*self),
    {
        match self {
            Rule::OneThreeS => "1-3s".to_owned(),
            Rule::TwoTwoS => "2-2s".to_owned(),
            Rule::RFourS => "R-4s".to_owned(),
            Rule::ThreeOneS => "3-1s".to_owned(),
            Rule::FourOneS => "4-1s".to_owned(),
            Rule::SevenT => "7-T".to_owned(),
            Rule::TenX => "10x".to_owned(),
        }
    }

    /// How many consecutive observations the rule looks at.
    pub fn window(&self) -> (len: usize)
        ensures
            len == window_len(*self),
    {
        match self {
            Rule::OneThreeS => 1,
            Rule::TwoTwoS => 2,
            Rule::RFourS => 2,
            Rule::ThreeOneS => 3,
            Rule::FourOneS => 4,
            Rule::SevenT => 7,
            Rule::TenX => 10,
        }
    }

    /// Evaluates this one rule over the whole series.
    pub fn check(&self, data: &[i64], target: i64, std_dev: i64) -> (violated: bool)
        ensures
            violated == rule_violated(*self, data@, target as int, std_dev as int),
    {
        match self {
            Rule::OneThreeS => check_1_3s(data, target, std_dev),
            Rule::TwoTwoS => check_2_2s(data, target, std_dev),
            Rule::RFourS => check_r_4s(data, target, std_dev),
            Rule::ThreeOneS => check_3_1s(data, target, std_dev),
            Rule::FourOneS => check_4_1s(data, target, std_dev),
            Rule::SevenT => check_7_t(data, target, std_dev),
            Rule::TenX => check_10x(data, target, std_dev),
        }
    }
}

/// All rules of the catalog, in report order.
pub fn all_rules() -> (rules: Vec<Rule>)
    ensures
        rules@ == catalog(),
{
    let mut rules: Vec<Rule> = Vec::new();
    rules.push(Rule::OneThreeS);
    rules.push(Rule::TwoTwoS);
    rules.push(Rule::RFourS);
    rules.push(Rule::ThreeOneS);
    rules.push(Rule::FourOneS);
    rules.push(Rule::SevenT);
    rules.push(Rule::TenX);
    assert(rules@ =~= catalog());
    rules
}

/// Which rules of the catalog are switched on. Every rule has its own flag.
#[derive(Clone, Copy, Debug)]
pub struct RuleConfig {
    pub check_1_3s: bool,
    pub check_2_2s: bool,
    pub check_r_4s: bool,
    pub check_3_1s: bool,
    pub check_4_1s: bool,
    pub check_7t: bool,
    pub check_10x: bool,
}

impl RuleConfig {
    /// The flag that belongs to `rule`.
    pub open spec fn enabled(self, rule: Rule) -> bool {
        match rule {
            Rule::OneThreeS => self.check_1_3s,
            Rule::TwoTwoS => self.check_2_2s,
            Rule::RFourS => self.check_r_4s,
            Rule::ThreeOneS => self.check_3_1s,
            Rule::FourOneS => self.check_4_1s,
            Rule::SevenT => self.check_7t,
            Rule::TenX => self.check_10x,
        }
    }

    /// Reads the flag that belongs to `rule`.
    pub fn is_enabled(&self, rule: Rule) -> (on: bool)
        ensures
            on == self.enabled(rule),
    {
        match rule {
            Rule::OneThreeS => self.check_1_3s,
            Rule::TwoTwoS => self.check_2_2s,
            Rule::RFourS => self.check_r_4s,
            Rule::ThreeOneS => self.check_3_1s,
            Rule::FourOneS => self.check_4_1s,
            Rule::SevenT => self.check_7t,
            Rule::TenX => self.check_10x,
        }
    }
}

impl Default for RuleConfig {
    /// Every rule switched on.
    fn default() -> (config: Self)
        ensures
            config == (RuleConfig {
                check_1_3s: true,
                check_2_2s: true,
                check_r_4s: true,
                check_3_1s: true,
                check_4_1s: true,
                check_7t: true,
                check_10x: true,
            }),
    {
        RuleConfig {
            check_1_3s: true,
            check_2_2s: true,
            check_r_4s: true,
            check_3_1s: true,
            check_4_1s: true,
            check_7t: true,
            check_10x: true,
        }
    }
}

/// One line of a report: a rule's name and whether the rule is violated.
#[derive(Clone, Debug, PartialEq, Eq)]
pub struct WestgardResult {
    pub rule_name: String,
    pub violated: bool,
}

impl DeepView for WestgardResult {
    type V = (Seq<char>, bool);

    open spec fn deep_view(&self) -> (Seq<char>, bool) {
        (self.rule_name@, self.violated)
    }
}

/// Why the rule engine refused to evaluate.
#[derive(Clone, Copy, Debug, PartialEq, Eq, Structural)]
pub enum RuleError {
    /// The standard deviation was zero or negative.
    NonPositiveStdDev,
}

/// The sentence that describes an error.
pub open spec fn rule_error_text(e: RuleError) -> Seq<char> {
    match e {
        RuleError::NonPositiveStdDev => "the standard deviation must be greater than zero"@,
    }
}

impl RuleError {
    /// A sentence for the person who supplied the input.
    pub fn message(&self) -> (text: String)
        ensures
            text@ == rule_error_text(*self),
    {
        match self {
            RuleError::NonPositiveStdDev => "the standard deviation must be greater than zero".to_owned(),
        }
    }
}

/// What a report says of `rule`: violated only if the rule is switched on and
/// its pattern occurs in the series.
pub open spec fn reported(rule: Rule, s: Seq<i64>, target: int, std_dev: int, config: RuleConfig) -> bool {
    config.enabled(rule) && rule_violated(rule, s, target, std_dev)
}

/// The report of a series: one line per rule of the catalog, in catalog order,
/// disabled rules included.
pub open spec fn report_of(s: Seq<i64>, target: int, std_dev: int, config: RuleConfig) -> Seq<
    (Seq<char>, bool),
> {
    Seq::new(
        catalog().len(),
        |i: int| (rule_name(catalog()[i]), reported(catalog()[i], s, target, std_dev, config)),
    )
}

/// `out` is what an audit of these inputs returns: the refusal for a standard
/// deviation of zero or less, the report otherwise.
pub open spec fn audit_outcome(
    out: Result<Vec<WestgardResult>, RuleError>,
    s: Seq<i64>,
    target: i64,
    std_dev: i64,
    config: RuleConfig,
) -> bool {
    match out {
        Ok(report) => std_dev > 0 && report.deep_view() == report_of(
            s,
            target as int,
            std_dev as int,
            config,
        ),
        Err(e) => std_dev <= 0 && e == RuleError::NonPositiveStdDev,
    }
}

/// Audits a whole series against every rule of the catalog.
///
/// A standard deviation of zero or less is refused before any rule is looked
/// at. Otherwise the report has one line for each rule, in catalog order; a
/// rule that is switched off is listed as not violated.
pub fn apply_rules(data: &[i64], target: i64, std_dev: i64, config: &RuleConfig) -> (out: Result<
    Vec<WestgardResult>,
    RuleError,
>)
    ensures
        out is Err <==> std_dev <= 0,
        out matches Err(e) ==> e == RuleError::NonPositiveStdDev,
        out matches Ok(report) ==> report.deep_view() == report_of(
            data@,
            target as int,
            std_dev as int,
            *config,
        ),
        audit_outcome(out, data@, target, std_dev, *config),
{
    if std_dev <= 0 {
        return Err(RuleError::NonPositiveStdDev);
    }
    let rules = all_rules();
    let mut report: Vec<WestgardResult> = Vec::new();
    let mut i: usize = 0;
    while i < rules.len()
        invariant
            i <= rules@.len(),
            rules@ == catalog(),
            report@.len() == i,
            forall|k: int|
                0 <= k < i ==> (#[trigger] report@[k]).deep_view() == report_of(
                    data@,
                    target as int,
                    std_dev as int,
                    *config,
                )[k],
        decreases rules@.len() - i,
    {
        let rule = rules[i];
        let violated = if config.is_enabled(rule) {
            rule.check(data, target, std_dev)
        } else {
            false
        };
        report.push(WestgardResult { rule_name: rule.name(), violated });
        i += 1;
    }
    assert(report.deep_view() =~= report_of(data@, target as int, std_dev as int, *config));
    Ok(report)
}

/// A series with fewer observations than a rule's window cannot violate that
/// rule.
pub proof fn lemma_short_series_passes(rule: Rule, s: Seq<i64>, target: int, std_dev: int)
    requires
        s.len() < window_len(rule),
    ensures
        !rule_violated(rule, s, target, std_dev),
{
}

/// The report of an empty series lists every rule as not violated.
pub proof fn lemma_empty_series_report(target: int, std_dev: int, config: RuleConfig)
    ensures
        report_of(Seq::<i64>::empty(), target, std_dev, config).len() == 7,
        forall|i: int|
            0 <= i < 7 ==> !(#[trigger] report_of(Seq::<i64>::empty(), target, std_dev, config)[i]).1,
{
    assert forall|i: int| 0 <= i < 7 implies !(#[trigger] report_of(
        Seq::<i64>::empty(),
        target,
        std_dev,
        config,
    )[i]).1 by {
        lemma_short_series_passes(catalog()[i], Seq::<i64>::empty(), target, std_dev);
    }
}

/// A report has a line for every rule of the catalog, under the rule's name,
/// and lists a rule that is switched off as not violated.
pub proof fn lemma_report_schema(s: Seq<i64>, target: int, std_dev: int, config: RuleConfig, i: int)
    requires
        0 <= i < 7,
    ensures
        report_of(s, target, std_dev, config).len() == 7,
        report_of(s, target, std_dev, config)[i].0 == rule_name(catalog()[i]),
        !config.enabled(catalog()[i]) ==> !report_of(s, target, std_dev, config)[i].1,
        config.enabled(catalog()[i]) ==> report_of(s, target, std_dev, config)[i].1 == rule_violated(
            catalog()[i],
            s,
            target,
            std_dev,
        ),
{
}

/// No two rules share a name.
pub proof fn lemma_rule_names_distinct(a: Rule, b: Rule)
    requires
        a != b,
    ensures
        rule_name(a) != rule_name(b),
{
    reveal_strlit("1-3s");
    reveal_strlit("2-2s");
    reveal_strlit("R-4s");
    reveal_strlit("3-1s");
    reveal_strlit("4-1s");
    reveal_strlit("7-T");
    reveal_strlit("10x");
    assert(rule_name(a).len() != rule_name(b).len() || rule_name(a)[0] != rule_name(b)[0]);
}

/// The names are the keys of a report: no two of its lines carry the same
/// name, so a name finds at most one line.
pub proof fn lemma_report_names_distinct(
    s: Seq<i64>,
    target: int,
    std_dev: int,
    config: RuleConfig,
    i: int,
    j: int,
)
    requires
        0 <= i < 7,
        0 <= j < 7,
        i != j,
    ensures
        report_of(s, target, std_dev, config)[i].0 != report_of(s, target, std_dev, config)[j].0,
{
    assert(catalog()[i] != catalog()[j]);
    lemma_rule_names_distinct(catalog()[i], catalog()[j]);
}

/// Two audits of the same series, limits and configuration give the same
/// answer: both refuse, or both report, line for line alike.
pub proof fn lemma_audit_repeatable(
    first: Result<Vec<WestgardResult>, RuleError>,
    second: Result<Vec<WestgardResult>, RuleError>,
    s: Seq<i64>,
    target: i64,
    std_dev: i64,
    config: RuleConfig,
)
    requires
        audit_outcome(first, s, target, std_dev, config),
        audit_outcome(second, s, target, std_dev, config),
    ensures
        match (first, second) {
            (Ok(a), Ok(b)) => a.deep_view() == b.deep_view(),
            (Err(e), Err(f)) => e == f,
            _ => false,
        },
{
}

/// R-4s is violated wherever an observation more than two standard deviations
/// above the target stands next to one more than two below it, in either
/// order.
pub proof fn lemma_r4s_opposite_neighbours(s: Seq<i64>, i: int, target: int, std_dev: int)
    requires
        0 <= i,
        i + 1 < s.len(),
        (s[i] > target + 2 * std_dev && s[i + 1] < target - 2 * std_dev) || (s[i] < target - 2
            * std_dev && s[i + 1] > target + 2 * std_dev),
    ensures
        rule_violated(Rule::RFourS, s, target, std_dev),
{
    assert(window_matches(Rule::RFourS, s, i, target, std_dev));
}

/// Two neighbours beyond two standard deviations on the same side of the
/// target are no R-4s pattern, and a series made of such a pair alone does
/// not violate R-4s.
pub proof fn lemma_r4s_same_side_neighbours(s: Seq<i64>, i: int, target: int, std_dev: int)
    requires
        std_dev > 0,
        0 <= i,
        i + 1 < s.len(),
        (s[i] > target + 2 * std_dev && s[i + 1] > target + 2 * std_dev) || (s[i] < target - 2
            * std_dev && s[i + 1] < target - 2 * std_dev),
    ensures
        !window_matches(Rule::RFourS, s, i, target, std_dev),
        s.len() == 2 ==> !rule_violated(Rule::RFourS, s, target, std_dev),
{
}

/// 10x is violated wherever ten consecutive observations all lie strictly
/// above the target, or all strictly below it.
pub proof fn lemma_10x_run_of_ten(s: Seq<i64>, start: int, target: int, std_dev: int)
    requires
        0 <= start,
        start + 10 <= s.len(),
        (forall|j: int| start <= j < start + 10 ==> #[trigger] s[j] > target) || (forall|j: int|
            start <= j < start + 10 ==> #[trigger] s[j] < target),
    ensures
        rule_violated(Rule::TenX, s, target, std_dev),
{
    assert(window_matches(Rule::TenX, s, start, target, std_dev));
}

/// Nine observations never violate 10x, on whichever side they lie.
pub proof fn lemma_10x_run_of_nine(s: Seq<i64>, target: int, std_dev: int)
    requires
        s.len() <= 9,
    ensures
        !rule_violated(Rule::TenX, s, target, std_dev),
{
}

/// An observation exactly on the target breaks every same-side run: no window
/// that holds it matches 2-2s, 3-1s, 4-1s or 10x, whatever the standard
/// deviation (zero or more).
pub proof fn lemma_on_target_breaks_run(s: Seq<i64>, start: int, len: int, at: int, target: int, margin: int)
    requires
        margin >= 0,
        start <= at < start + len,
        s[at] == target,
    ensures
        !same_side_run(s, start, len, target, margin),
{
    assert(!above(s[at], target, margin));
    assert(!below(s[at], target, margin));
}

/// Whether a report lists any rule as violated.
pub fn any_violated(report: &[WestgardResult]) -> (found: bool)
    ensures
        found == exists|i: int| 0 <= i < report@.len() && (#[trigger] report@[i]).violated,
{
    let mut i: usize = 0;
    while i < report.len()
        invariant
            i <= report@.len(),
            forall|k: int| 0 <= k < i ==> !(#[trigger] report@[k]).violated,
        decreases report@.len() - i,
    {
        if report[i].violated {
            return true;
        }
        i += 1;
    }
    false
}

} // verus!
