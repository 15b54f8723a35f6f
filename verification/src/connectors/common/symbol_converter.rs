//! Symbol conversion between the formats exchanges use (`BTC_USDT`, `BTC/USDT`,
//! `BTC-USDT`, `BTCUSDT`): the format is recognised by regular expressions, the symbol is
//! split into base and quote currency, and conversions are cached by symbol and target
//! format, the least used entries leaving first when the cache is full.
use vstd::prelude::*;
use crate::clock::now_nanos;
use crate::str_map::StrMap;
use crate::text::{
    char_text, decimal_text, ends_with, owned, spec_count_char, spec_decimal, spec_ends_with,
    to_upper, trim_text, trimmed_of, upper_case_of,
};

verus! {

#[verifier::external_type_specification]
#[verifier::external_body]
pub struct ExRegex(regex::Regex);

/// Whether `regex::Regex::is_match` finds the pattern `pattern` in `text`.
pub uninterp spec fn regex_is_match(pattern: Seq<char>, text: Seq<char>) -> bool;

/// Whether `regex::Regex::new` accepts the pattern `pattern` (with its default limits).
pub uninterp spec fn regex_compiles(pattern: Seq<char>) -> bool;

/// Compiles a pattern with `regex::Regex::new`; an error is given as its text. Whether it
/// succeeds depends on the pattern alone, and is named `regex_compiles`.
#[verifier::external_body]
fn compile_regex(pattern: &str) -> (r: Result<regex::Regex, String>)
    ensures
        r is Ok <==> regex_compiles(pattern@),
{
    match regex::Regex::new(pattern) {
        Ok(re) => Ok(re),
        Err(e) => Err(e.to_string()),
    }
}

/// A regular expression with the pattern it was compiled from.
#[derive(Debug)]
pub struct CompiledPattern {
    source: String,
    regex: regex::Regex,
}

impl CompiledPattern {
    /// The pattern.
    pub closed spec fn source_view(&self) -> Seq<char> {
        self.source@
    }

    /// Compiles `pattern`: it succeeds exactly when `regex::Regex::new` accepts the
    /// pattern, and the compiled pattern keeps it as its source.
    pub fn compile(pattern: &str) -> (r: Result<CompiledPattern, String>)
        ensures
            r is Ok <==> regex_compiles(pattern@),
            r matches Ok(p) ==> p.source_view() == pattern@,
    {
        match compile_regex(pattern) {
            Ok(regex) => Ok(CompiledPattern { source: owned(pattern), regex }),
            Err(e) => Err(e),
        }
    }
}

/// Calls `regex::Regex::is_match` on the compiled pattern. A compiled pattern is only
/// made by `CompiledPattern::compile` from its source, so the answer is named
/// `regex_is_match` of the source and the text.
#[verifier::external_body]
fn pattern_is_match(p: &CompiledPattern, text: &str) -> (r: bool)
    ensures
        r == regex_is_match(p.source_view(), text@),
{
    p.regex.is_match(text)
}

/// The pattern of underscore symbols.
pub open spec fn underscore_pattern() -> Seq<char> {
    "^([A-Z0-9]+)_([A-Z0-9]+)$"@
}

/// The pattern of slash symbols.
pub open spec fn slash_pattern() -> Seq<char> {
    "^([A-Z0-9]+)/([A-Z0-9]+)$"@
}

/// The pattern of hyphen symbols.
pub open spec fn hyphen_pattern() -> Seq<char> {
    "^([A-Z0-9]+)-([A-Z0-9]+)$"@
}

/// The pattern of symbols without a separator.
pub open spec fn no_separator_pattern() -> Seq<char> {
    "^([A-Z0-9]{2,10})([A-Z0-9]{3,6})$"@
}

/// Settings of the converter.
#[derive(Debug, Clone)]
pub struct SymbolConverterConfig {
    pub enable_cache: bool,
    pub max_cache_size: usize,
    pub strict_mode: bool,
    pub default_base_currency: String,
    pub default_quote_currency: String,
}

impl Default for SymbolConverterConfig {
    fn default() -> (r: Self)
        ensures
            r.enable_cache,
            r.max_cache_size == 10000,
            !r.strict_mode,
            r.default_base_currency@ == "BTC"@,
            r.default_quote_currency@ == "USDT"@,
    {
        SymbolConverterConfig {
            enable_cache: true,
            max_cache_size: 10000,
            strict_mode: false,
            default_base_currency: owned("BTC"),
            default_quote_currency: owned("USDT"),
        }
    }
}

/// Formats of symbols.
#[derive(Debug, Clone)]
pub enum SymbolFormat {
    Underscore,
    Slash,
    NoSeparator,
    Hyphen,
    Custom(String),
}

/// A symbol format with its pattern as characters.
pub enum SymbolFormatView {
    Underscore,
    Slash,
    NoSeparator,
    Hyphen,
    Custom(Seq<char>),
}

impl View for SymbolFormat {
    type V = SymbolFormatView;

    open spec fn view(&self) -> SymbolFormatView {
        match self {
            SymbolFormat::Underscore => SymbolFormatView::Underscore,
            SymbolFormat::Slash => SymbolFormatView::Slash,
            SymbolFormat::NoSeparator => SymbolFormatView::NoSeparator,
            SymbolFormat::Hyphen => SymbolFormatView::Hyphen,
            SymbolFormat::Custom(p) => SymbolFormatView::Custom(p@),
        }
    }
}

/// What a symbol was found to be.
#[derive(Debug, Clone)]
pub struct SymbolInfo {
    pub base_currency: String,
    pub quote_currency: String,
    pub original_symbol: String,
    pub normalized_symbol: String,
    pub detected_format: SymbolFormat,
}

/// A converted symbol.
#[derive(Debug, Clone)]
pub struct ConversionResult {
    pub converted_symbol: String,
    pub symbol_info: SymbolInfo,
    pub from_cache: bool,
    pub conversion_time_ns: u64,
}

/// Errors of the converter.
#[derive(Debug, Clone)]
pub enum ConversionError {
    InvalidFormat(String),
    UnsupportedFormat(String),
    ParseError(String),
    CacheError(String),
    UnknownPair(String),
}

/// The text of a conversion error.
pub open spec fn spec_conversion_error_text(e: ConversionError) -> Seq<char> {
    match e {
        ConversionError::InvalidFormat(m) => "无效格式: "@ + m@,
        ConversionError::UnsupportedFormat(m) => "不支持的格式: "@ + m@,
        ConversionError::ParseError(m) => "解析错误: "@ + m@,
        ConversionError::CacheError(m) => "缓存错误: "@ + m@,
        ConversionError::UnknownPair(m) => "未知货币对: "@ + m@,
    }
}

impl ConversionError {
    /// The text of the error.
    pub fn message(&self) -> (r: String)
        ensures
            r@ == spec_conversion_error_text(*self),
    {
        match self {
            ConversionError::InvalidFormat(m) => owned("无效格式: ").concat(m.as_str()),
            ConversionError::UnsupportedFormat(m) => owned("不支持的格式: ").concat(m.as_str()),
            ConversionError::ParseError(m) => owned("解析错误: ").concat(m.as_str()),
            ConversionError::CacheError(m) => owned("缓存错误: ").concat(m.as_str()),
            ConversionError::UnknownPair(m) => owned("未知货币对: ").concat(m.as_str()),
        }
    }
}

/// Size of the conversion cache.
#[derive(Debug, Clone, Copy, PartialEq, Eq, Structural)]
pub struct CacheStats {
    pub total_entries: usize,
    pub max_size: usize,
    /// Hits are not counted yet; the rate is always zero.
    pub hit_rate_ppm: u64,
}

/// The compiled patterns, made on first use.
#[derive(Debug)]
pub struct RegexCache {
    pub underscore_regex: Option<CompiledPattern>,
    pub slash_regex: Option<CompiledPattern>,
    pub no_separator_regex: Option<CompiledPattern>,
    pub hyphen_regex: Option<CompiledPattern>,
}

/// Whether a slot holds nothing or a pattern compiled from `source`.
pub open spec fn slot_wf(slot: Option<CompiledPattern>, source: Seq<char>) -> bool {
    slot matches Some(p) ==> p.source_view() == source
}

impl RegexCache {
    /// Each slot holds its own pattern, if any.
    pub open spec fn wf(&self) -> bool {
        &&& slot_wf(self.underscore_regex, underscore_pattern())
        &&& slot_wf(self.slash_regex, slash_pattern())
        &&& slot_wf(self.no_separator_regex, no_separator_pattern())
        &&& slot_wf(self.hyphen_regex, hyphen_pattern())
    }

    /// Every slot is filled.
    pub open spec fn complete(&self) -> bool {
        &&& self.underscore_regex is Some
        &&& self.slash_regex is Some
        &&& self.no_separator_regex is Some
        &&& self.hyphen_regex is Some
    }

    /// Whether filling the empty slots succeeds: every slot is filled already or its
    /// pattern compiles. For an empty cache this says that all four patterns compile.
    pub open spec fn fills(&self) -> bool {
        &&& (self.underscore_regex is Some || regex_compiles(underscore_pattern()))
        &&& (self.slash_regex is Some || regex_compiles(slash_pattern()))
        &&& (self.hyphen_regex is Some || regex_compiles(hyphen_pattern()))
        &&& (self.no_separator_regex is Some || regex_compiles(no_separator_pattern()))
    }
}

/// The conversion cache: converted symbols by `symbol-format`, how often each was stored,
/// and an exchange-to-standard table that nothing fills yet.
#[derive(Debug)]
pub struct SymbolCache {
    pub standard_to_exchange: StrMap<String>,
    pub exchange_to_standard: StrMap<String>,
    pub usage_count: StrMap<u64>,
}

impl SymbolCache {
    /// The tables have distinct keys and the counts cover exactly the cached conversions.
    pub open spec fn wf(&self) -> bool {
        &&& self.standard_to_exchange.wf()
        &&& self.exchange_to_standard.wf()
        &&& self.usage_count.wf()
        &&& self.usage_count.view().dom() == self.standard_to_exchange.view().dom()
    }
}

/// The format a text matches, checked in order: underscore, slash, hyphen, no separator.
pub open spec fn spec_detected(text: Seq<char>) -> Option<SymbolFormatView> {
    if regex_is_match(underscore_pattern(), text) {
        Some(SymbolFormatView::Underscore)
    } else if regex_is_match(slash_pattern(), text) {
        Some(SymbolFormatView::Slash)
    } else if regex_is_match(hyphen_pattern(), text) {
        Some(SymbolFormatView::Hyphen)
    } else if regex_is_match(no_separator_pattern(), text) {
        Some(SymbolFormatView::NoSeparator)
    } else {
        None
    }
}

/// The index of the first `c` in `s`.
pub open spec fn spec_first_index(s: Seq<char>, c: char) -> int
    decreases s.len(),
{
    if s.len() == 0 {
        0
    } else if s[0] == c {
        0
    } else {
        1 + spec_first_index(s.drop_first(), c)
    }
}

/// Splitting at a separator: with exactly one separator, the trimmed text before and
/// after it, neither empty; otherwise the message of the failure.
pub open spec fn spec_split_two(s: Seq<char>, c: char) -> Result<(Seq<char>, Seq<char>), Seq<char>> {
    let count = spec_count_char(s, c);
    if count != 1 {
        Err("符号 "@ + s + " 使用分隔符 '"@ + seq![c] + "' 解析失败，期望2个部分，实际"@ + spec_decimal(count + 1) + "个"@)
    } else {
        let p = spec_first_index(s, c);
        let base = trimmed_of(s.subrange(0, p));
        let quote = trimmed_of(s.subrange(p + 1, s.len() as int));
        if base.len() == 0 || quote.len() == 0 {
            Err("符号 "@ + s + " 解析后基础货币或报价货币为空"@)
        } else {
            Ok((base, quote))
        }
    }
}

/// The quote currencies tried, in order, on symbols without a separator.
pub open spec fn common_quotes() -> Seq<Seq<char>> {
    seq![
        "USDT"@, "USDC"@, "BUSD"@, "TUSD"@, "FDUSD"@, "BTC"@, "ETH"@, "BNB"@, "ADA"@, "DOT"@, "SOL"@, "USD"@,
        "EUR"@, "GBP"@, "JPY"@, "CNY"@,
    ]
}

/// Whether quote `q` splits `s`: `s` ends with it and keeps at least two characters
/// before it.
pub open spec fn quote_fits(s: Seq<char>, q: Seq<char>) -> bool {
    spec_ends_with(s, q) && s.len() > q.len() && s.len() - q.len() >= 2
}

/// The first of `quotes` that splits `s`, if any.
pub open spec fn spec_first_quote(s: Seq<char>, quotes: Seq<Seq<char>>) -> Option<Seq<char>>
    decreases quotes.len(),
{
    if quotes.len() == 0 {
        None
    } else if quote_fits(s, quotes[0]) {
        Some(quotes[0])
    } else {
        spec_first_quote(s, quotes.drop_first())
    }
}

/// Splitting a symbol without a separator: by the first common quote currency that fits,
/// else, for six characters or more, before the last four; otherwise the failure.
pub open spec fn spec_split_plain(s: Seq<char>) -> Result<(Seq<char>, Seq<char>), Seq<char>> {
    match spec_first_quote(s, common_quotes()) {
        Some(q) => Ok((s.subrange(0, s.len() - q.len()), q)),
        None => if s.len() >= 6 {
            Ok((s.subrange(0, s.len() - 4), s.subrange(s.len() - 4, s.len() as int)))
        } else {
            Err("无法解析无分隔符符号: "@ + s)
        },
    }
}

/// Whether every character is ASCII.
pub open spec fn all_ascii(s: Seq<char>) -> bool {
    forall|i: int| 0 <= i < s.len() ==> (#[trigger] s[i] as u32) < 128
}

/// Splitting a symbol of the detected format, given in upper case.
pub open spec fn spec_split_as(f: SymbolFormatView, upper: Seq<char>) -> Result<(Seq<char>, Seq<char>), Seq<char>> {
    match f {
        SymbolFormatView::Underscore => spec_split_two(upper, '_'),
        SymbolFormatView::Slash => spec_split_two(upper, '/'),
        SymbolFormatView::Hyphen => spec_split_two(upper, '-'),
        SymbolFormatView::NoSeparator => if all_ascii(upper) {
            spec_split_plain(upper)
        } else {
            Err("无法解析无分隔符符号: "@ + upper)
        },
        SymbolFormatView::Custom(_) => Err(Seq::empty()),
    }
}

/// What parsing `symbol` gives once the patterns are compiled: its format, base and quote.
pub open spec fn spec_parsed(symbol: Seq<char>) -> Option<(SymbolFormatView, Seq<char>, Seq<char>)> {
    match spec_detected(upper_case_of(symbol)) {
        None => None,
        Some(f) => match spec_split_as(f, upper_case_of(symbol)) {
            Ok((b, q)) => Some((f, b, q)),
            Err(_) => None,
        },
    }
}

/// Every count in `new` is at most one more than in `old`, where a missing count is zero.
pub open spec fn usage_grows_by_one(old: Map<Seq<char>, u64>, new: Map<Seq<char>, u64>) -> bool {
    forall|k: Seq<char>| #[trigger] new.contains_key(k) ==> new[k] <= (if old.contains_key(k) { old[k] as int } else { 0 }) + 1
}

/// The cache key of a symbol in a format.
pub open spec fn cache_key(symbol: Seq<char>, format: Seq<char>) -> Seq<char> {
    symbol + "-"@ + format
}

/// Whether a parse result is the one `spec_parsed` describes for `symbol`.
pub open spec fn info_matches(info: SymbolInfo, symbol: Seq<char>) -> bool {
    spec_parsed(symbol) matches Some((f, b, q)) && {
        &&& info.detected_format@ == f
        &&& info.base_currency@ == b
        &&& info.quote_currency@ == q
        &&& info.original_symbol@ == symbol
        &&& info.normalized_symbol@ == b + "_"@ + q
    }
}

/// The name under which conversions to format `f` are cached.
pub open spec fn spec_format_name(f: SymbolFormat) -> Seq<char> {
    match f {
        SymbolFormat::Underscore => "underscore"@,
        SymbolFormat::Slash => "slash"@,
        SymbolFormat::NoSeparator => "no_separator"@,
        SymbolFormat::Hyphen => "hyphen"@,
        SymbolFormat::Custom(p) => p@,
    }
}

/// The text put between base and quote in format `f`.
pub open spec fn spec_joiner(f: SymbolFormat) -> Seq<char> {
    match f {
        SymbolFormat::Underscore => "_"@,
        SymbolFormat::Slash => "/"@,
        SymbolFormat::NoSeparator => ""@,
        SymbolFormat::Hyphen => "-"@,
        SymbolFormat::Custom(p) => p@,
    }
}

/// `symbol` converted afresh: its base, `joiner` and its quote.
pub open spec fn spec_fresh_conversion(symbol: Seq<char>, joiner: Seq<char>) -> Seq<char> {
    match spec_parsed(symbol) {
        Some((f, b, q)) => b + joiner + q,
        None => Seq::empty(),
    }
}

/// Whether `res` is the conversion of `symbol` into the format cached under `name` and
/// joined by `joiner`, given the cache `cache` and whether caching is on: the parse of
/// the symbol, and the cached text when there is one, else the fresh conversion.
pub open spec fn spec_converted(
    cache: Map<Seq<char>, Seq<char>>,
    enabled: bool,
    res: ConversionResult,
    symbol: Seq<char>,
    name: Seq<char>,
    joiner: Seq<char>,
) -> bool {
    &&& info_matches(res.symbol_info, symbol)
    &&& res.from_cache == (enabled && cache.contains_key(cache_key(symbol, name)))
    &&& res.from_cache ==> res.converted_symbol@ == cache[cache_key(symbol, name)]
    &&& !res.from_cache ==> res.converted_symbol@ == res.symbol_info.base_currency@ + joiner + res.symbol_info.quote_currency@
}

/// How a conversion of `symbol` under `name` that gave `r` changes the cache from `a` to
/// `b`, given whether caching is on and the cache's size limit: a failure or a cache hit
/// leaves it as it was; a fresh conversion is stored when caching is on, and while the
/// cache is below its limit nothing else changes.
pub open spec fn spec_cache_effect(
    enabled: bool,
    max: usize,
    a: Map<Seq<char>, Seq<char>>,
    b: Map<Seq<char>, Seq<char>>,
    r: Result<ConversionResult, ConversionError>,
    symbol: Seq<char>,
    name: Seq<char>,
) -> bool {
    match r {
        Ok(res) => {
            &&& res.from_cache ==> b == a
            &&& !res.from_cache && !enabled ==> b == a
            &&& !res.from_cache && enabled && a.len() < max ==> b == a.insert(cache_key(symbol, name), res.converted_symbol@)
        },
        Err(_) => b == a,
    }
}

/// Whether every entry of the cache `b` was in `a` with the same text, or is the fresh
/// conversion `r` of `symbol` stored under `name`.
pub open spec fn spec_cache_step(
    a: Map<Seq<char>, Seq<char>>,
    b: Map<Seq<char>, Seq<char>>,
    r: Result<ConversionResult, ConversionError>,
    symbol: Seq<char>,
    name: Seq<char>,
) -> bool {
    forall|k: Seq<char>| #[trigger] b.contains_key(k) ==> (a.contains_key(k) && b[k] == a[k])
        || (r matches Ok(res) && !res.from_cache && k == cache_key(symbol, name) && b[k] == res.converted_symbol@)
}

/// Whether `r` is a proper result of converting `symbol` to `target` in a batch that began
/// with the cache `cache`: the parse of the symbol, with its fresh conversion, or with the
/// text the cache held for it when caching is on; or a refusal when it does not parse.
pub open spec fn spec_batch_result(
    cache: Map<Seq<char>, Seq<char>>,
    enabled: bool,
    r: Result<ConversionResult, ConversionError>,
    symbol: Seq<char>,
    target: SymbolFormat,
) -> bool {
    match r {
        Ok(res) => {
            let k = cache_key(symbol, spec_format_name(target));
            &&& info_matches(res.symbol_info, symbol)
            &&& res.from_cache ==> enabled
            &&& !res.from_cache ==> res.converted_symbol@ == spec_fresh_conversion(symbol, spec_joiner(target))
            &&& res.from_cache ==> (res.converted_symbol@ == spec_fresh_conversion(symbol, spec_joiner(target))
                || (cache.contains_key(k) && res.converted_symbol@ == cache[k]))
        },
        Err(_) => spec_parsed(symbol) is None,
    }
}

/// Whether `later`, a conversion of the same symbol as `earlier`, came from the cache with
/// the same text, when it succeeded.
pub open spec fn spec_repeat_hit(
    earlier: Result<ConversionResult, ConversionError>,
    later: Result<ConversionResult, ConversionError>,
) -> bool {
    match later {
        Ok(res) => {
            &&& res.from_cache
            &&& earlier matches Ok(first) && res.converted_symbol@ == first.converted_symbol@
        },
        Err(_) => true,
    }
}

/// Two cache keys for one format name are equal only for equal symbols.
proof fn lemma_cache_key_injective(a: Seq<char>, b: Seq<char>, name: Seq<char>)
    requires
        cache_key(a, name) == cache_key(b, name),
    ensures
        a == b,
{
    let t = "-"@ + name;
    assert(cache_key(a, name) == a + t) by {
        assert(a + "-"@ + name =~= a + ("-"@ + name));
    }
    assert(cache_key(b, name) == b + t) by {
        assert(b + "-"@ + name =~= b + ("-"@ + name));
    }
    assert(a.len() == b.len());
    assert(a =~= (a + t).subrange(0, a.len() as int));
    assert(b =~= (b + t).subrange(0, b.len() as int));
}

/// The format recognised from which patterns matched.
pub fn classify_format(
    underscore: bool,
    slash: bool,
    hyphen: bool,
    no_separator: bool,
    symbol: &str,
) -> (r: Result<SymbolFormat, ConversionError>)
    ensures
        underscore ==> r matches Ok(SymbolFormat::Underscore),
        !underscore && slash ==> r matches Ok(SymbolFormat::Slash),
        !underscore && !slash && hyphen ==> r matches Ok(SymbolFormat::Hyphen),
        !underscore && !slash && !hyphen && no_separator ==> r matches Ok(SymbolFormat::NoSeparator),
        !underscore && !slash && !hyphen && !no_separator ==>
            (r matches Err(ConversionError::InvalidFormat(m)) && m@ == "无法识别符号格式: "@ + symbol@),
{
    if underscore {
        Ok(SymbolFormat::Underscore)
    } else if slash {
        Ok(SymbolFormat::Slash)
    } else if hyphen {
        Ok(SymbolFormat::Hyphen)
    } else if no_separator {
        Ok(SymbolFormat::NoSeparator)
    } else {
        Err(ConversionError::InvalidFormat(owned("无法识别符号格式: ").concat(symbol)))
    }
}

/// Splits `symbol` at `separator`.
pub fn parse_with_separator(symbol: &str, separator: char) -> (r: Result<(String, String), ConversionError>)
    ensures
        match spec_split_two(symbol@, separator) {
            Ok((b, q)) => r matches Ok((rb, rq)) && rb@ == b && rq@ == q,
            Err(m) => r matches Err(ConversionError::ParseError(e)) && e@ == m,
        },
{
    let n = symbol.unicode_len();
    let mut count: usize = 0;
    let mut first: usize = 0;
    let mut i: usize = 0;
    while i < n
        invariant
            n == symbol@.len(),
            i <= n,
            count == spec_count_char(symbol@.take(i as int), separator),
            count <= i,
            count == 0 ==> first == 0,
            count > 0 ==> first < i && first == spec_first_index(symbol@, separator),
            count == 0 ==> forall|j: int| 0 <= j < i ==> symbol@[j] != separator,
        decreases n - i,
    {
        proof {
            assert(symbol@.take(i + 1).drop_last() =~= symbol@.take(i as int));
        }
        if symbol.get_char(i) == separator {
            if count == 0 {
                first = i;
                proof {
                    lemma_first_index(symbol@, separator, i as int);
                }
            }
            count = count + 1;
        }
        i = i + 1;
    }
    proof {
        assert(symbol@.take(n as int) =~= symbol@);
    }
    if count != 1 {
        let msg = owned("符号 ").concat(symbol).concat(" 使用分隔符 '").concat(char_text(separator).as_str())
            .concat("' 解析失败，期望2个部分，实际").concat(decimal_text(count as u128 + 1).as_str()).concat("个");
        return Err(ConversionError::ParseError(msg));
    }
    let base = trim_text(symbol.substring_char(0, first));
    let quote = trim_text(symbol.substring_char(first + 1, n));
    if base.as_str().unicode_len() == 0 || quote.as_str().unicode_len() == 0 {
        return Err(ConversionError::ParseError(owned("符号 ").concat(symbol).concat(" 解析后基础货币或报价货币为空")));
    }
    Ok((base, quote))
}

/// The first `c` found at `i` after none before it is the first index of `c`.
proof fn lemma_first_index(s: Seq<char>, c: char, i: int)
    requires
        0 <= i < s.len(),
        s[i] == c,
        forall|j: int| 0 <= j < i ==> s[j] != c,
    ensures
        spec_first_index(s, c) == i,
    decreases i,
{
    if i > 0 {
        assert forall|j: int| 0 <= j < i - 1 implies s.drop_first()[j] != c by {
            assert(s.drop_first()[j] == s[j + 1]);
        }
        lemma_first_index(s.drop_first(), c, i - 1);
    }
}

/// The common quote currencies, in the order they are tried.
pub fn common_quote_list() -> (r: Vec<&'static str>)
    ensures
        r@.len() == common_quotes().len(),
        forall|i: int| 0 <= i < r@.len() ==> (#[trigger] r@[i])@ == common_quotes()[i],
{
    let r = vec![
        "USDT", "USDC", "BUSD", "TUSD", "FDUSD", "BTC", "ETH", "BNB", "ADA", "DOT", "SOL", "USD", "EUR", "GBP",
        "JPY", "CNY",
    ];
    r
}

/// Splits a symbol that has no separator and holds only ASCII characters.
pub fn parse_no_separator(symbol: &str) -> (r: Result<(String, String), ConversionError>)
    requires
        all_ascii(symbol@),
    ensures
        match spec_split_plain(symbol@) {
            Ok((b, q)) => r matches Ok((rb, rq)) && rb@ == b && rq@ == q,
            Err(m) => r matches Err(ConversionError::ParseError(e)) && e@ == m,
        },
{
    let quotes = common_quote_list();
    let n = symbol.unicode_len();
    let k = quotes.len();
    let mut i: usize = 0;
    proof {
        assert(common_quotes().skip(0) =~= common_quotes());
    }
    while i < k
        invariant
            k == quotes@.len(),
            k == common_quotes().len(),
            forall|j: int| 0 <= j < quotes@.len() ==> (#[trigger] quotes@[j])@ == common_quotes()[j],
            n == symbol@.len(),
            i <= k,
            spec_first_quote(symbol@, common_quotes()) == spec_first_quote(symbol@, common_quotes().skip(i as int)),
        decreases k - i,
    {
        let q = quotes[i];
        proof {
            assert(common_quotes().skip(i as int).drop_first() =~= common_quotes().skip(i + 1));
            assert(common_quotes().skip(i as int)[0] == q@);
        }
        let m = q.unicode_len();
        if ends_with(symbol, q) && n > m && n - m >= 2 {
            let base = symbol.substring_char(0, n - m);
            return Ok((owned(base), owned(q)));
        }
        i = i + 1;
    }
    if n >= 6 {
        let base = symbol.substring_char(0, n - 4);
        let quote = symbol.substring_char(n - 4, n);
        return Ok((owned(base), owned(quote)));
    }
    Err(ConversionError::ParseError(owned("无法解析无分隔符符号: ").concat(symbol)))
}

/// Whether every character of `s` is ASCII.
pub fn is_all_ascii(s: &str) -> (r: bool)
    ensures
        r == all_ascii(s@),
{
    let n = s.unicode_len();
    let mut i: usize = 0;
    while i < n
        invariant
            n == s@.len(),
            i <= n,
            forall|j: int| 0 <= j < i ==> (#[trigger] s@[j] as u32) < 128,
        decreases n - i,
    {
        if (s.get_char(i) as u32) >= 128 {
            return false;
        }
        i = i + 1;
    }
    true
}

/// Whether `removed` is `count` keys of `u` none of which is used more often than a key
/// that stays.
pub open spec fn spec_least_used(u: Map<Seq<char>, u64>, removed: Set<Seq<char>>, count: nat) -> bool {
    &&& removed.len() == count
    &&& removed.subset_of(u.dom())
    &&& forall|r: Seq<char>, q: Seq<char>| removed.contains(r) && u.remove_keys(removed).contains_key(q)
        ==> #[trigger] u[r] <= #[trigger] u[q]
}

/// Removes the `count` entries used least often, as the cache does when it is full.
pub fn evict_least_used(cache: &mut SymbolCache, count: usize)
    requires
        old(cache).wf(),
        count <= old(cache).usage_count.entries@.len(),
    ensures
        final(cache).wf(),
        exists|removed: Set<Seq<char>>| #[trigger] spec_least_used(old(cache).usage_count.view(), removed, count as nat) && {
            &&& final(cache).usage_count.view() == old(cache).usage_count.view().remove_keys(removed)
            &&& final(cache).standard_to_exchange.view() == old(cache).standard_to_exchange.view().remove_keys(removed)
        },
{
    let ghost u0 = cache.usage_count.view();
    let ghost s0 = cache.standard_to_exchange.view();
    let ghost mut removed: Set<Seq<char>> = Set::empty();
    let mut j: usize = 0;
    proof {
        cache.usage_count.lemma_len_matches();
        assert(u0.remove_keys(removed) =~= u0);
        assert(s0.remove_keys(removed) =~= s0);
    }
    while j < count
        invariant
            cache.wf(),
            j <= count,
            count <= u0.len(),
            u0.dom().finite(),
            removed.len() == j,
            removed.finite(),
            removed.subset_of(u0.dom()),
            cache.usage_count.view() == u0.remove_keys(removed),
            cache.standard_to_exchange.view() == s0.remove_keys(removed),
            forall|r: Seq<char>, k: Seq<char>|
                removed.contains(r) && cache.usage_count.view().contains_key(k)
                    ==> #[trigger] u0[r] <= #[trigger] u0[k],
        decreases count - j,
    {
        proof {
            cache.usage_count.lemma_len_matches();
            assert(cache.usage_count.view().dom() =~= u0.dom().difference(removed));
            vstd::set_lib::lemma_set_difference_len(u0.dom(), removed);
            assert(u0.dom().intersect(removed) =~= removed);
        }
        let n = cache.usage_count.entries.len();
        assert(n > 0);
        let mut best: usize = 0;
        let mut i: usize = 1;
        while i < n
            invariant
                cache.usage_count.wf(),
                n == cache.usage_count.entries@.len(),
                n > 0,
                best < n,
                1 <= i <= n,
                forall|t: int| 0 <= t < i ==> cache.usage_count.entries@[best as int].1 <= #[trigger] cache.usage_count.entries@[t].1,
            decreases n - i,
        {
            if cache.usage_count.entries[i].1 < cache.usage_count.entries[best].1 {
                best = i;
            }
            i = i + 1;
        }
        let key = cache.usage_count.entries[best].0.clone();
        let ghost k = key@;
        proof {
            cache.usage_count.lemma_entry(best as int);
            assert forall|q: Seq<char>| cache.usage_count.view().contains_key(q) implies u0[k] <= #[trigger] u0[q] by {
                let t = cache.usage_count.index_of(q);
                cache.usage_count.lemma_entry(t);
            }
        }
        cache.standard_to_exchange.remove(key.as_str());
        cache.exchange_to_standard.remove(key.as_str());
        cache.usage_count.remove(key.as_str());
        proof {
            let old_removed = removed;
            removed = removed.insert(k);
            assert(!old_removed.contains(k));
            assert(cache.usage_count.view() =~= u0.remove_keys(removed));
            assert(cache.standard_to_exchange.view() =~= s0.remove_keys(removed));
        }
        j = j + 1;
    }
    assert(spec_least_used(u0, removed, count as nat));
}

/// Converts and caches symbols.
#[derive(Debug)]
pub struct SymbolConverter {
    pub config: SymbolConverterConfig,
    pub symbol_cache: SymbolCache,
    pub regex_cache: RegexCache,
}

impl SymbolConverter {
    /// The converter is well formed.
    pub open spec fn wf(&self) -> bool {
        self.symbol_cache.wf() && self.regex_cache.wf()
    }

    /// The cached conversions, by key.
    pub open spec fn cached(&self) -> Map<Seq<char>, Seq<char>> {
        self.symbol_cache.standard_to_exchange.view()
    }

    /// A converter with an empty cache and no compiled patterns.
    pub fn new(config: SymbolConverterConfig) -> (r: Self)
        ensures
            r.wf(),
            r.config == config,
            r.cached() == Map::<Seq<char>, Seq<char>>::empty(),
    {
        let r = SymbolConverter {
            config,
            symbol_cache: SymbolCache {
                standard_to_exchange: StrMap::new(),
                exchange_to_standard: StrMap::new(),
                usage_count: StrMap::new(),
            },
            regex_cache: RegexCache {
                underscore_regex: None,
                slash_regex: None,
                no_separator_regex: None,
                hyphen_regex: None,
            },
        };
        r
    }

    /// A converter with the default settings.
    pub fn with_default_config() -> (r: Self)
        ensures
            r.wf(),
            r.config.enable_cache,
            r.config.max_cache_size == 10000,
            !r.config.strict_mode,
            r.cached() == Map::<Seq<char>, Seq<char>>::empty(),
    {
        Self::new(SymbolConverterConfig::default())
    }

    /// Compiles the patterns that are not compiled yet, in the order underscore, slash,
    /// hyphen, no separator. A pattern that does not compile stops it with an error that
    /// names the pattern's kind.
    pub fn init_regex(&mut self) -> (r: Result<(), ConversionError>)
        requires
            old(self).wf(),
        ensures
            final(self).wf(),
            final(self).config == old(self).config,
            final(self).symbol_cache == old(self).symbol_cache,
            r is Ok <==> old(self).regex_cache.fills(),
            r is Ok ==> final(self).regex_cache.complete(),
            r is Err ==> r matches Err(ConversionError::ParseError(_)),
            r is Err ==> !final(self).regex_cache.complete(),
            old(self).regex_cache.complete() ==> r is Ok,
    {
        if self.regex_cache.underscore_regex.is_none() {
            match CompiledPattern::compile("^([A-Z0-9]+)_([A-Z0-9]+)$") {
                Ok(p) => {
                    self.regex_cache.underscore_regex = Some(p);
                },
                Err(e) => {
                    return Err(ConversionError::ParseError(owned("下划线正则编译失败: ").concat(e.as_str())));
                },
            }
        }
        if self.regex_cache.slash_regex.is_none() {
            match CompiledPattern::compile("^([A-Z0-9]+)/([A-Z0-9]+)$") {
                Ok(p) => {
                    self.regex_cache.slash_regex = Some(p);
                },
                Err(e) => {
                    return Err(ConversionError::ParseError(owned("斜杠正则编译失败: ").concat(e.as_str())));
                },
            }
        }
        if self.regex_cache.hyphen_regex.is_none() {
            match CompiledPattern::compile("^([A-Z0-9]+)-([A-Z0-9]+)$") {
                Ok(p) => {
                    self.regex_cache.hyphen_regex = Some(p);
                },
                Err(e) => {
                    return Err(ConversionError::ParseError(owned("连字符正则编译失败: ").concat(e.as_str())));
                },
            }
        }
        if self.regex_cache.no_separator_regex.is_none() {
            match CompiledPattern::compile("^([A-Z0-9]{2,10})([A-Z0-9]{3,6})$") {
                Ok(p) => {
                    self.regex_cache.no_separator_regex = Some(p);
                },
                Err(e) => {
                    return Err(ConversionError::ParseError(owned("无分隔符正则编译失败: ").concat(e.as_str())));
                },
            }
        }
        Ok(())
    }

    /// The format of `symbol`, recognised in upper case.
    pub fn detect_format(&mut self, symbol: &str) -> (r: Result<SymbolFormat, ConversionError>)
        requires
            old(self).wf(),
        ensures
            final(self).wf(),
            final(self).config == old(self).config,
            final(self).symbol_cache == old(self).symbol_cache,
            old(self).regex_cache.fills() ==> final(self).regex_cache.complete(),
            final(self).regex_cache.complete() ==> match spec_detected(upper_case_of(symbol@)) {
                Some(f) => r matches Ok(g) && g@ == f,
                None => r matches Err(ConversionError::InvalidFormat(m)) && m@ == "无法识别符号格式: "@ + symbol@,
            },
            !final(self).regex_cache.complete() ==> r matches Err(ConversionError::ParseError(_)),
    {
        match self.init_regex() {
            Err(e) => return Err(e),
            Ok(()) => {},
        }
        let upper = to_upper(symbol);
        let u = match &self.regex_cache.underscore_regex {
            Some(p) => pattern_is_match(p, upper.as_str()),
            None => false,
        };
        let s = match &self.regex_cache.slash_regex {
            Some(p) => pattern_is_match(p, upper.as_str()),
            None => false,
        };
        let h = match &self.regex_cache.hyphen_regex {
            Some(p) => pattern_is_match(p, upper.as_str()),
            None => false,
        };
        let ns = match &self.regex_cache.no_separator_regex {
            Some(p) => pattern_is_match(p, upper.as_str()),
            None => false,
        };
        classify_format(u, s, h, ns, symbol)
    }

    /// Parses `symbol` into base and quote currency; the normalized form joins them with
    /// an underscore.
    pub fn parse_symbol(&mut self, symbol: &str) -> (r: Result<SymbolInfo, ConversionError>)
        requires
            old(self).wf(),
        ensures
            final(self).wf(),
            final(self).config == old(self).config,
            final(self).symbol_cache == old(self).symbol_cache,
            old(self).regex_cache.fills() ==> final(self).regex_cache.complete(),
            final(self).regex_cache.complete() ==> match r {
                Ok(info) => info_matches(info, symbol@),
                Err(_) => spec_parsed(symbol@) is None,
            },
    {
        let format = match self.detect_format(symbol) {
            Ok(f) => f,
            Err(e) => return Err(e),
        };
        let upper = to_upper(symbol);
        let split = match &format {
            SymbolFormat::Underscore => parse_with_separator(upper.as_str(), '_'),
            SymbolFormat::Slash => parse_with_separator(upper.as_str(), '/'),
            SymbolFormat::Hyphen => parse_with_separator(upper.as_str(), '-'),
            SymbolFormat::NoSeparator => {
                if is_all_ascii(upper.as_str()) {
                    parse_no_separator(upper.as_str())
                } else {
                    Err(ConversionError::ParseError(owned("无法解析无分隔符符号: ").concat(upper.as_str())))
                }
            },
            SymbolFormat::Custom(pattern) => Err(ConversionError::UnsupportedFormat(owned("自定义格式暂不支持: ").concat(pattern.as_str()))),
        };
        let (base, quote) = match split {
            Ok(bq) => bq,
            Err(e) => return Err(e),
        };
        let normalized = base.clone().concat("_").concat(quote.as_str());
        Ok(SymbolInfo {
            base_currency: base,
            quote_currency: quote,
            original_symbol: owned(symbol),
            normalized_symbol: normalized,
            detected_format: format,
        })
    }

    /// The cached conversion of `symbol` to the format named `format`, if any.
    pub fn get_from_cache(&self, symbol: &str, format: &str) -> (r: Option<String>)
        requires
            self.wf(),
        ensures
            match r {
                Some(c) => self.cached().contains_key(cache_key(symbol@, format@)) && c@ == self.cached()[cache_key(symbol@, format@)],
                None => !self.cached().contains_key(cache_key(symbol@, format@)),
            },
    {
        let key = owned(symbol).concat("-").concat(format);
        match self.symbol_cache.standard_to_exchange.get(key.as_str()) {
            Some(c) => Some(c.clone()),
            None => None,
        }
    }

    /// Caches a conversion and counts it. A full cache first drops the quarter of its
    /// entries used least often.
    pub fn update_cache(&mut self, symbol: &str, format: &str, converted: &str)
        requires
            old(self).wf(),
            forall|k: Seq<char>| #[trigger] old(self).symbol_cache.usage_count.view().contains_key(k)
                ==> old(self).symbol_cache.usage_count.view()[k] < u64::MAX,
        ensures
            usage_grows_by_one(old(self).symbol_cache.usage_count.view(), final(self).symbol_cache.usage_count.view()),
            final(self).wf(),
            final(self).config == old(self).config,
            final(self).regex_cache == old(self).regex_cache,
            final(self).cached().contains_key(cache_key(symbol@, format@)),
            final(self).cached()[cache_key(symbol@, format@)] == converted@,
            ({
                let k = cache_key(symbol@, format@);
                let prev = old(self).symbol_cache.usage_count.view();
                if old(self).cached().len() < old(self).config.max_cache_size {
                    &&& final(self).cached() == old(self).cached().insert(k, converted@)
                    &&& final(self).symbol_cache.usage_count.view() == prev.insert(k,
                        (if prev.contains_key(k) { prev[k] + 1 } else { 1 }) as u64)
                } else {
                    exists|removed: Set<Seq<char>>| #[trigger] spec_least_used(prev, removed, old(self).cached().len() / 4) && {
                        let kept = prev.remove_keys(removed);
                        &&& final(self).cached() == old(self).cached().remove_keys(removed).insert(k, converted@)
                        &&& final(self).symbol_cache.usage_count.view() == kept.insert(k,
                            (if kept.contains_key(k) { kept[k] + 1 } else { 1 }) as u64)
                    }
                }
            }),
    {
        proof {
            self.symbol_cache.standard_to_exchange.lemma_len_matches();
            self.symbol_cache.usage_count.lemma_len_matches();
        }
        if self.symbol_cache.standard_to_exchange.len() >= self.config.max_cache_size {
            let remove = self.symbol_cache.standard_to_exchange.len() / 4;
            evict_least_used(&mut self.symbol_cache, remove);
        }
        let key = owned(symbol).concat("-").concat(format);
        let ghost k = key@;
        self.symbol_cache.standard_to_exchange.insert(key.clone(), owned(converted));
        let count = match self.symbol_cache.usage_count.get(key.as_str()) {
            Some(c) => *c,
            None => 0,
        };
        self.symbol_cache.usage_count.insert(key, count + 1);
        proof {
            self.symbol_cache.standard_to_exchange.lemma_len_matches();
        }
    }

    /// Converts `symbol` into the format named `format_name`, joining base and quote with
    /// `joiner`; cached conversions are reused when caching is on.
    pub fn convert_with(&mut self, symbol: &str, format_name: &str, joiner: &str, now_start: u64, now_end: u64) -> (r: Result<ConversionResult, ConversionError>)
        requires
            old(self).wf(),
            forall|k: Seq<char>| #[trigger] old(self).symbol_cache.usage_count.view().contains_key(k)
                ==> old(self).symbol_cache.usage_count.view()[k] < u64::MAX,
        ensures
            usage_grows_by_one(old(self).symbol_cache.usage_count.view(), final(self).symbol_cache.usage_count.view()),
            final(self).wf(),
            final(self).config == old(self).config,
            old(self).regex_cache.fills() ==> final(self).regex_cache.complete(),
            final(self).regex_cache.complete() ==> match r {
                Ok(res) => {
                    &&& info_matches(res.symbol_info, symbol@)
                    &&& res.from_cache == (old(self).config.enable_cache
                        && old(self).cached().contains_key(cache_key(symbol@, format_name@)))
                    &&& res.from_cache ==> res.converted_symbol@ == old(self).cached()[cache_key(symbol@, format_name@)]
                    &&& !res.from_cache ==> res.converted_symbol@ == res.symbol_info.base_currency@ + joiner@ + res.symbol_info.quote_currency@
                },
                Err(_) => spec_parsed(symbol@) is None,
            },
            r matches Ok(res) ==> res.conversion_time_ns == (if now_end >= now_start { (now_end - now_start) as u64 } else { 0 }),
            match r {
                Ok(res) => !res.from_cache && old(self).config.enable_cache ==> {
                    &&& final(self).cached().contains_key(cache_key(symbol@, format_name@))
                    &&& final(self).cached()[cache_key(symbol@, format_name@)] == res.converted_symbol@
                },
                Err(_) => true,
            },
            !old(self).config.enable_cache ==> final(self).symbol_cache == old(self).symbol_cache,
            spec_cache_step(old(self).cached(), final(self).cached(), r, symbol@, format_name@),
            spec_cache_effect(old(self).config.enable_cache, old(self).config.max_cache_size, old(self).cached(), final(self).cached(), r, symbol@, format_name@),
    {
        let elapsed = if now_end >= now_start { now_end - now_start } else { 0 };
        if self.config.enable_cache {
            match self.get_from_cache(symbol, format_name) {
                Some(cached) => {
                    let info = match self.parse_symbol(symbol) {
                        Ok(i) => i,
                        Err(e) => return Err(e),
                    };
                    return Ok(ConversionResult {
                        converted_symbol: cached,
                        symbol_info: info,
                        from_cache: true,
                        conversion_time_ns: elapsed,
                    });
                },
                None => {},
            }
        }
        let info = match self.parse_symbol(symbol) {
            Ok(i) => i,
            Err(e) => return Err(e),
        };
        let converted = info.base_currency.clone().concat(joiner).concat(info.quote_currency.as_str());
        if self.config.enable_cache {
            self.update_cache(symbol, format_name, converted.as_str());
        }
        Ok(ConversionResult { converted_symbol: converted, symbol_info: info, from_cache: false, conversion_time_ns: elapsed })
    }

    /// Converts `symbol` to `BASE_QUOTE`.
    pub fn convert_to_underscore_format(&mut self, symbol: &str) -> (r: Result<ConversionResult, ConversionError>)
        requires
            old(self).wf(),
            forall|k: Seq<char>| #[trigger] old(self).symbol_cache.usage_count.view().contains_key(k)
                ==> old(self).symbol_cache.usage_count.view()[k] < u64::MAX,
        ensures
            usage_grows_by_one(old(self).symbol_cache.usage_count.view(), final(self).symbol_cache.usage_count.view()),
            final(self).wf(),
            final(self).config == old(self).config,
            old(self).regex_cache.fills() ==> final(self).regex_cache.complete(),
            final(self).regex_cache.complete() ==> match r {
                Ok(res) => spec_converted(old(self).cached(), old(self).config.enable_cache, res, symbol@, "underscore"@, "_"@),
                Err(_) => spec_parsed(symbol@) is None,
            },
            spec_cache_step(old(self).cached(), final(self).cached(), r, symbol@, "underscore"@),
            spec_cache_effect(old(self).config.enable_cache, old(self).config.max_cache_size, old(self).cached(), final(self).cached(), r, symbol@, "underscore"@),
    {
        let start = now_nanos();
        self.convert_with_clock(symbol, "underscore", "_", start)
    }

    /// Converts `symbol` to `BASE/QUOTE`.
    pub fn convert_to_slash_format(&mut self, symbol: &str) -> (r: Result<ConversionResult, ConversionError>)
        requires
            old(self).wf(),
            forall|k: Seq<char>| #[trigger] old(self).symbol_cache.usage_count.view().contains_key(k)
                ==> old(self).symbol_cache.usage_count.view()[k] < u64::MAX,
        ensures
            usage_grows_by_one(old(self).symbol_cache.usage_count.view(), final(self).symbol_cache.usage_count.view()),
            final(self).wf(),
            final(self).config == old(self).config,
            old(self).regex_cache.fills() ==> final(self).regex_cache.complete(),
            final(self).regex_cache.complete() ==> match r {
                Ok(res) => spec_converted(old(self).cached(), old(self).config.enable_cache, res, symbol@, "slash"@, "/"@),
                Err(_) => spec_parsed(symbol@) is None,
            },
            spec_cache_step(old(self).cached(), final(self).cached(), r, symbol@, "slash"@),
            spec_cache_effect(old(self).config.enable_cache, old(self).config.max_cache_size, old(self).cached(), final(self).cached(), r, symbol@, "slash"@),
    {
        let start = now_nanos();
        self.convert_with_clock(symbol, "slash", "/", start)
    }

    /// Converts `symbol` to `BASEQUOTE`.
    pub fn convert_to_no_separator_format(&mut self, symbol: &str) -> (r: Result<ConversionResult, ConversionError>)
        requires
            old(self).wf(),
            forall|k: Seq<char>| #[trigger] old(self).symbol_cache.usage_count.view().contains_key(k)
                ==> old(self).symbol_cache.usage_count.view()[k] < u64::MAX,
        ensures
            usage_grows_by_one(old(self).symbol_cache.usage_count.view(), final(self).symbol_cache.usage_count.view()),
            final(self).wf(),
            final(self).config == old(self).config,
            old(self).regex_cache.fills() ==> final(self).regex_cache.complete(),
            final(self).regex_cache.complete() ==> match r {
                Ok(res) => spec_converted(old(self).cached(), old(self).config.enable_cache, res, symbol@, "no_separator"@, ""@),
                Err(_) => spec_parsed(symbol@) is None,
            },
            spec_cache_step(old(self).cached(), final(self).cached(), r, symbol@, "no_separator"@),
            spec_cache_effect(old(self).config.enable_cache, old(self).config.max_cache_size, old(self).cached(), final(self).cached(), r, symbol@, "no_separator"@),
    {
        let start = now_nanos();
        self.convert_with_clock(symbol, "no_separator", "", start)
    }

    /// Converts `symbol` to `BASE-QUOTE`.
    pub fn convert_to_hyphen_format(&mut self, symbol: &str) -> (r: Result<ConversionResult, ConversionError>)
        requires
            old(self).wf(),
            forall|k: Seq<char>| #[trigger] old(self).symbol_cache.usage_count.view().contains_key(k)
                ==> old(self).symbol_cache.usage_count.view()[k] < u64::MAX,
        ensures
            usage_grows_by_one(old(self).symbol_cache.usage_count.view(), final(self).symbol_cache.usage_count.view()),
            final(self).wf(),
            final(self).config == old(self).config,
            old(self).regex_cache.fills() ==> final(self).regex_cache.complete(),
            final(self).regex_cache.complete() ==> match r {
                Ok(res) => spec_converted(old(self).cached(), old(self).config.enable_cache, res, symbol@, "hyphen"@, "-"@),
                Err(_) => spec_parsed(symbol@) is None,
            },
            spec_cache_step(old(self).cached(), final(self).cached(), r, symbol@, "hyphen"@),
            spec_cache_effect(old(self).config.enable_cache, old(self).config.max_cache_size, old(self).cached(), final(self).cached(), r, symbol@, "hyphen"@),
    {
        let start = now_nanos();
        self.convert_with_clock(symbol, "hyphen", "-", start)
    }

    /// Converts, timing the conversion from `start` to the clock's reading at its end.
    fn convert_with_clock(&mut self, symbol: &str, format_name: &str, joiner: &str, start: u64) -> (r: Result<ConversionResult, ConversionError>)
        requires
            old(self).wf(),
            forall|k: Seq<char>| #[trigger] old(self).symbol_cache.usage_count.view().contains_key(k)
                ==> old(self).symbol_cache.usage_count.view()[k] < u64::MAX,
        ensures
            usage_grows_by_one(old(self).symbol_cache.usage_count.view(), final(self).symbol_cache.usage_count.view()),
            final(self).wf(),
            final(self).config == old(self).config,
            old(self).regex_cache.fills() ==> final(self).regex_cache.complete(),
            final(self).regex_cache.complete() ==> match r {
                Ok(res) => spec_converted(old(self).cached(), old(self).config.enable_cache, res, symbol@, format_name@, joiner@),
                Err(_) => spec_parsed(symbol@) is None,
            },
            spec_cache_step(old(self).cached(), final(self).cached(), r, symbol@, format_name@),
            spec_cache_effect(old(self).config.enable_cache, old(self).config.max_cache_size, old(self).cached(), final(self).cached(), r, symbol@, format_name@),
    {
        let r = self.convert_with(symbol, format_name, joiner, start, start);
        match r {
            Ok(mut res) => {
                let end = now_nanos();
                res.conversion_time_ns = if end >= start { end - start } else { 0 };
                Ok(res)
            },
            Err(e) => Err(e),
        }
    }

    /// Converts `symbol` to `target_format`; custom formats are not supported.
    pub fn convert_to_format(&mut self, symbol: &str, target_format: &SymbolFormat) -> (r: Result<ConversionResult, ConversionError>)
        requires
            old(self).wf(),
            forall|k: Seq<char>| #[trigger] old(self).symbol_cache.usage_count.view().contains_key(k)
                ==> old(self).symbol_cache.usage_count.view()[k] < u64::MAX,
        ensures
            usage_grows_by_one(old(self).symbol_cache.usage_count.view(), final(self).symbol_cache.usage_count.view()),
            final(self).wf(),
            final(self).config == old(self).config,
            old(self).regex_cache.complete() ==> final(self).regex_cache.complete(),
            !(target_format is Custom) && old(self).regex_cache.fills() ==> final(self).regex_cache.complete(),
            target_format matches SymbolFormat::Custom(p) ==> {
                &&& r matches Err(ConversionError::UnsupportedFormat(m)) && m@ == "自定义格式暂不支持: "@ + p@
                &&& final(self).symbol_cache == old(self).symbol_cache
                &&& final(self).regex_cache == old(self).regex_cache
            },
            !(target_format is Custom) && final(self).regex_cache.complete() ==> match r {
                Ok(res) => spec_converted(old(self).cached(), old(self).config.enable_cache, res, symbol@,
                    spec_format_name(*target_format), spec_joiner(*target_format)),
                Err(_) => spec_parsed(symbol@) is None,
            },
            !(target_format is Custom) ==> spec_cache_step(old(self).cached(), final(self).cached(), r, symbol@, spec_format_name(*target_format)),
            !(target_format is Custom) ==> spec_cache_effect(old(self).config.enable_cache, old(self).config.max_cache_size,
                old(self).cached(), final(self).cached(), r, symbol@, spec_format_name(*target_format)),
    {
        match target_format {
            SymbolFormat::Underscore => self.convert_to_underscore_format(symbol),
            SymbolFormat::Slash => self.convert_to_slash_format(symbol),
            SymbolFormat::NoSeparator => self.convert_to_no_separator_format(symbol),
            SymbolFormat::Hyphen => self.convert_to_hyphen_format(symbol),
            SymbolFormat::Custom(pattern) => Err(ConversionError::UnsupportedFormat(owned("自定义格式暂不支持: ").concat(pattern.as_str()))),
        }
    }

    /// Converts each symbol in turn; the results are in the order of the symbols. Each one
    /// is the symbol's fresh conversion, or the text that the cache held for it before the
    /// batch began.
    pub fn batch_convert(&mut self, symbols: &Vec<String>, target_format: &SymbolFormat) -> (r: Vec<Result<ConversionResult, ConversionError>>)
        requires
            old(self).wf(),
            symbols@.len() + 2 <= u64::MAX,
            forall|k: Seq<char>| #[trigger] old(self).symbol_cache.usage_count.view().contains_key(k)
                ==> old(self).symbol_cache.usage_count.view()[k] < u64::MAX - symbols@.len(),
        ensures
            final(self).wf(),
            final(self).config == old(self).config,
            r@.len() == symbols@.len(),
            old(self).regex_cache.fills() && !(target_format is Custom) ==> forall|j: int| 0 <= j < r@.len() ==>
                #[trigger] spec_batch_result(old(self).cached(), old(self).config.enable_cache, r@[j], symbols@[j]@, *target_format),
            target_format matches SymbolFormat::Custom(p) ==> forall|j: int| 0 <= j < r@.len() ==>
                (#[trigger] r@[j] matches Err(ConversionError::UnsupportedFormat(m)) && m@ == "自定义格式暂不支持: "@ + p@),
            old(self).regex_cache.fills() && !(target_format is Custom) && old(self).config.enable_cache
                && old(self).cached().len() + symbols@.len() < old(self).config.max_cache_size
                ==> forall|a: int, b: int| 0 <= a < b < r@.len() && symbols@[a]@ == symbols@[b]@
                    ==> #[trigger] spec_repeat_hit(r@[a], r@[b]),
    {
        proof {
            self.symbol_cache.standard_to_exchange.lemma_len_matches();
        }
        let ghost nocut = old(self).regex_cache.fills() && !(target_format is Custom) && old(self).config.enable_cache
            && old(self).cached().len() + symbols@.len() < old(self).config.max_cache_size;
        let n = symbols.len();
        let mut out: Vec<Result<ConversionResult, ConversionError>> = Vec::new();
        let ghost name = spec_format_name(*target_format);
        let ghost joiner = spec_joiner(*target_format);
        let ghost c_start = self.cached();
        let mut i: usize = 0;
        while i < n
            invariant
                self.wf(),
                self.config == old(self).config,
                c_start == old(self).cached(),
                name == spec_format_name(*target_format),
                joiner == spec_joiner(*target_format),
                n == symbols@.len(),
                n + 2 <= u64::MAX,
                i <= n,
                out@.len() == i,
                forall|k: Seq<char>| #[trigger] self.symbol_cache.usage_count.view().contains_key(k)
                    ==> self.symbol_cache.usage_count.view()[k] < u64::MAX - (n - i),
                old(self).regex_cache.fills() && !(target_format is Custom) ==> self.regex_cache.fills(),
                old(self).regex_cache.fills() && !(target_format is Custom) ==> forall|j: int| 0 <= j < i ==>
                    #[trigger] spec_batch_result(c_start, old(self).config.enable_cache, out@[j], symbols@[j]@, *target_format),
                old(self).regex_cache.fills() && !(target_format is Custom) ==> forall|k: Seq<char>| #[trigger] self.cached().contains_key(k)
                    ==> (c_start.contains_key(k) && self.cached()[k] == c_start[k])
                        || exists|j: int| 0 <= j < i && k == #[trigger] cache_key(symbols@[j]@, name)
                            && self.cached()[k] == spec_fresh_conversion(symbols@[j]@, joiner),
                target_format matches SymbolFormat::Custom(p) ==> forall|j: int| 0 <= j < i ==>
                    (#[trigger] out@[j] matches Err(ConversionError::UnsupportedFormat(m)) && m@ == "自定义格式暂不支持: "@ + p@),
                nocut == (old(self).regex_cache.fills() && !(target_format is Custom) && old(self).config.enable_cache
                    && c_start.len() + n < old(self).config.max_cache_size),
                c_start.dom().finite(),
                nocut ==> self.cached().len() <= c_start.len() + i,
                nocut ==> forall|j: int| 0 <= j < i ==> (#[trigger] out@[j] matches Ok(res) ==> {
                    &&& self.cached().contains_key(cache_key(symbols@[j]@, name))
                    &&& self.cached()[cache_key(symbols@[j]@, name)] == res.converted_symbol@
                }),
                nocut ==> forall|a: int, b: int| 0 <= a < b < i && symbols@[a]@ == symbols@[b]@
                    ==> #[trigger] spec_repeat_hit(out@[a], out@[b]),
            decreases n - i,
        {
            let ghost before = self.symbol_cache.usage_count.view();
            let ghost c0 = self.cached();
            proof {
                self.symbol_cache.standard_to_exchange.lemma_len_matches();
            }
            let r = self.convert_to_format(symbols[i].as_str(), target_format);
            proof {
                assert forall|k: Seq<char>| #[trigger] self.symbol_cache.usage_count.view().contains_key(k)
                    implies self.symbol_cache.usage_count.view()[k] < u64::MAX - (n - (i + 1)) by {
                    assert(usage_grows_by_one(before, self.symbol_cache.usage_count.view()));
                    if before.contains_key(k) {
                        assert(before[k] < u64::MAX - (n - i));
                    }
                }
                if old(self).regex_cache.fills() && !(target_format is Custom) {
                    let sym = symbols@[i as int]@;
                    let ki = cache_key(sym, name);
                    match &r {
                        Ok(res) => {
                            if res.from_cache {
                                assert(c0.contains_key(ki));
                                if !(c_start.contains_key(ki) && c0[ki] == c_start[ki]) {
                                    let j = choose|j: int| 0 <= j < i && ki == #[trigger] cache_key(symbols@[j]@, name)
                                        && c0[ki] == spec_fresh_conversion(symbols@[j]@, joiner);
                                    lemma_cache_key_injective(symbols@[j]@, sym, name);
                                }
                            }
                        },
                        Err(_) => {},
                    }
                    assert(spec_batch_result(c_start, old(self).config.enable_cache, r, sym, *target_format));
                    let c1 = self.cached();
                    assert forall|k: Seq<char>| #[trigger] c1.contains_key(k) implies (c_start.contains_key(k) && c1[k] == c_start[k])
                        || exists|j: int| 0 <= j < i + 1 && k == #[trigger] cache_key(symbols@[j]@, name)
                            && c1[k] == spec_fresh_conversion(symbols@[j]@, joiner) by {
                        if c0.contains_key(k) && c1[k] == c0[k] {
                            if !(c_start.contains_key(k) && c0[k] == c_start[k]) {
                                let j = choose|j: int| 0 <= j < i && k == #[trigger] cache_key(symbols@[j]@, name)
                                    && c0[k] == spec_fresh_conversion(symbols@[j]@, joiner);
                                assert(0 <= j < i + 1);
                            }
                        } else {
                            assert(k == cache_key(symbols@[i as int]@, name));
                        }
                    }
                }
            }
            proof {
                if nocut {
                    self.symbol_cache.standard_to_exchange.lemma_len_matches();
                    let c1 = self.cached();
                    let sym = symbols@[i as int]@;
                    let ki = cache_key(sym, name);
                    assert(c0.len() < old(self).config.max_cache_size);
                    assert(c1.len() <= c_start.len() + i + 1) by {
                        match &r {
                            Ok(res) => {
                                if !res.from_cache {
                                    assert(c1 == c0.insert(ki, res.converted_symbol@));
                                    assert(c1.dom() =~= c0.dom().insert(ki));
                                    assert(c0.dom().insert(ki).len() <= c0.dom().len() + 1);
                                }
                            },
                            Err(_) => {},
                        }
                    }
                    assert forall|j: int| 0 <= j < i implies (#[trigger] out@[j] matches Ok(res) ==> {
                        &&& c1.contains_key(cache_key(symbols@[j]@, name))
                        &&& c1[cache_key(symbols@[j]@, name)] == res.converted_symbol@
                    }) by {
                        let kj = cache_key(symbols@[j]@, name);
                        match &r {
                            Ok(res) => {
                                if !res.from_cache && out@[j] is Ok {
                                    assert(c0.contains_key(kj));
                                    if kj == ki {
                                        assert(res.from_cache);
                                    }
                                }
                            },
                            Err(_) => {},
                        }
                    }
                    assert forall|a: int| 0 <= a < i && symbols@[a]@ == symbols@[i as int]@
                        implies #[trigger] spec_repeat_hit(out@[a], r) by {
                        assert(spec_batch_result(c_start, old(self).config.enable_cache, out@[a], symbols@[a]@, *target_format));
                        match &r {
                            Ok(res) => {
                                assert(info_matches(res.symbol_info, sym));
                                assert(out@[a] is Ok);
                                assert(c0.contains_key(cache_key(symbols@[a]@, name)));
                            },
                            Err(_) => {},
                        }
                    }
                }
            }
            let ghost o0 = out@;
            out.push(r);
            proof {
                if nocut {
                    assert forall|j: int| 0 <= j < i + 1 implies (#[trigger] out@[j] matches Ok(res) ==> {
                        &&& self.cached().contains_key(cache_key(symbols@[j]@, name))
                        &&& self.cached()[cache_key(symbols@[j]@, name)] == res.converted_symbol@
                    }) by {
                        if j < i {
                            assert(out@[j] == o0[j]);
                        }
                    }
                    assert forall|a: int, b: int| 0 <= a < b < i + 1 && symbols@[a]@ == symbols@[b]@
                        implies #[trigger] spec_repeat_hit(out@[a], out@[b]) by {
                        assert(out@[a] == o0[a]);
                        if b < i {
                            assert(out@[b] == o0[b]);
                        }
                    }
                }
                if old(self).regex_cache.fills() && !(target_format is Custom) {
                    assert forall|j: int| 0 <= j < i + 1 implies
                        #[trigger] spec_batch_result(c_start, old(self).config.enable_cache, out@[j], symbols@[j]@, *target_format) by {
                        if j < i {
                            assert(out@[j] == o0[j]);
                        }
                    }
                }
                if target_format is Custom {
                    assert forall|j: int| 0 <= j < i + 1 implies #[trigger] out@[j] == (if j < i { o0[j] } else { r }) by {}
                }
            }
            i = i + 1;
        }
        out
    }

    /// Empties the cache.
    pub fn clear_cache(&mut self)
        requires
            old(self).wf(),
        ensures
            final(self).wf(),
            final(self).config == old(self).config,
            final(self).regex_cache == old(self).regex_cache,
            final(self).cached() == Map::<Seq<char>, Seq<char>>::empty(),
            final(self).symbol_cache.usage_count.view() == Map::<Seq<char>, u64>::empty(),
    {
        self.symbol_cache = SymbolCache {
            standard_to_exchange: StrMap::new(),
            exchange_to_standard: StrMap::new(),
            usage_count: StrMap::new(),
        };
    }

    /// How many conversions are cached and how many may be.
    pub fn get_cache_stats(&self) -> (r: CacheStats)
        requires
            self.wf(),
        ensures
            r.total_entries == self.cached().len(),
            r.max_size == self.config.max_cache_size,
            r.hit_rate_ppm == 0,
    {
        proof {
            self.symbol_cache.standard_to_exchange.lemma_len_matches();
        }
        CacheStats {
            total_entries: self.symbol_cache.standard_to_exchange.len(),
            max_size: self.config.max_cache_size,
            hit_rate_ppm: 0,
        }
    }

    /// Whether `symbol` is valid: an empty symbol is not; in strict mode it must parse, else
    /// its format must be recognised. Failures are errors.
    pub fn validate_symbol(&mut self, symbol: &str) -> (r: Result<bool, ConversionError>)
        requires
            old(self).wf(),
        ensures
            final(self).wf(),
            final(self).config == old(self).config,
            final(self).symbol_cache == old(self).symbol_cache,
            symbol@.len() == 0 ==> r == Ok::<bool, ConversionError>(false),
            symbol@.len() > 0 && old(self).regex_cache.fills() ==> final(self).regex_cache.complete(),
            symbol@.len() > 0 && final(self).regex_cache.complete() ==> if old(self).config.strict_mode {
                (r is Ok <==> spec_parsed(symbol@) is Some) && (r is Ok ==> r == Ok::<bool, ConversionError>(true))
            } else {
                (r is Ok <==> spec_detected(upper_case_of(symbol@)) is Some) && (r is Ok ==> r == Ok::<bool, ConversionError>(true))
            },
    {
        if symbol.unicode_len() == 0 {
            return Ok(false);
        }
        if self.config.strict_mode {
            match self.parse_symbol(symbol) {
                Ok(_) => Ok(true),
                Err(e) => Err(e),
            }
        } else {
            match self.detect_format(symbol) {
                Ok(_) => Ok(true),
                Err(e) => Err(e),
            }
        }
    }

    /// Replaces the settings.
    pub fn update_config(&mut self, new_config: SymbolConverterConfig)
        ensures
            final(self).config == new_config,
            final(self).symbol_cache == old(self).symbol_cache,
            final(self).regex_cache == old(self).regex_cache,
    {
        self.config = new_config;
    }
}


/// The quote currencies recognised at the end of a symbol without a separator, in the
/// order they are tried.
pub open spec fn known_quote_currencies() -> Seq<Seq<char>> {
    seq![
        "USDT"@,
        "USDC"@,
        "BUSD"@,
        "TUSD"@,
        "FDUSD"@,
        "BTC"@,
        "ETH"@,
        "BNB"@,
        "ADA"@,
        "DOT"@,
        "SOL"@,
        "USD"@,
        "EUR"@,
        "GBP"@,
        "JPY"@,
        "CNY"@,
    ]
}

/// The first quote of `quotes` that fits `s` is the one at `k` when it fits and none
/// before it does.
proof fn lemma_first_quote_at(s: Seq<char>, quotes: Seq<Seq<char>>, k: int)
    requires
        0 <= k < quotes.len(),
        quote_fits(s, quotes[k]),
        forall|j: int| 0 <= j < k ==> !quote_fits(s, #[trigger] quotes[j]),
    ensures
        spec_first_quote(s, quotes) == Some(quotes[k]),
    decreases k,
{
    if k > 0 {
        assert(!quote_fits(s, quotes[0]));
        let rest = quotes.drop_first();
        assert forall|j: int| 0 <= j < k - 1 implies !quote_fits(s, #[trigger] rest[j]) by {
            assert(rest[j] == quotes[j + 1]);
        }
        assert(rest[k - 1] == quotes[k]);
        lemma_first_quote_at(s, rest, k - 1);
    }
}

/// A symbol without a separator made of a base of at least two characters and a known
/// quote currency splits into that base and quote, provided no quote tried before it also
/// ends the symbol. So `BTCFDUSD` splits as `BTC` and `FDUSD`, and `ETHUSDT` as `ETH` and
/// `USDT`.
pub proof fn lemma_known_quote_split(base: Seq<char>, k: int)
    requires
        0 <= k < known_quote_currencies().len(),
        base.len() >= 2,
        forall|j: int| 0 <= j < k ==> !spec_ends_with(base + known_quote_currencies()[k], #[trigger] known_quote_currencies()[j]),
    ensures
        spec_split_plain(base + known_quote_currencies()[k]) == Ok::<(Seq<char>, Seq<char>), Seq<char>>((base, known_quote_currencies()[k])),
{
    let q = known_quote_currencies()[k];
    let s = base + q;
    assert(common_quotes() =~= known_quote_currencies());
    assert(s.subrange(s.len() - q.len(), s.len() as int) =~= q);
    assert(quote_fits(s, q));
    lemma_first_quote_at(s, common_quotes(), k);
    assert(s.subrange(0, s.len() - q.len()) =~= base);
}

/// Any base of at least two characters followed by `FDUSD` splits as that base and
/// `FDUSD`.
pub proof fn lemma_fdusd_split(base: Seq<char>)
    requires
        base.len() >= 2,
    ensures
        spec_split_plain(base + "FDUSD"@) == Ok::<(Seq<char>, Seq<char>), Seq<char>>((base, "FDUSD"@)),
{
    reveal_strlit("USDT");
    reveal_strlit("USDC");
    reveal_strlit("BUSD");
    reveal_strlit("TUSD");
    reveal_strlit("FDUSD");
    let s = base + "FDUSD"@;
    assert(known_quote_currencies()[4] == "FDUSD"@);
    assert forall|j: int| 0 <= j < 4 implies !spec_ends_with(s, #[trigger] known_quote_currencies()[j]) by {
        let q = known_quote_currencies()[j];
        assert(q.len() == 4);
        assert(s[s.len() - 4] == 'D');
        assert(s.subrange(s.len() - 4, s.len() as int)[0] == 'D');
        assert(q[0] != 'D');
    }
    lemma_known_quote_split(base, 4);
}

/// Counting a character over two pieces adds the counts of each.
proof fn lemma_count_char_concat(a: Seq<char>, b: Seq<char>, c: char)
    ensures
        spec_count_char(a + b, c) == spec_count_char(a, c) + spec_count_char(b, c),
    decreases b.len(),
{
    if b.len() > 0 {
        lemma_count_char_concat(a, b.drop_last(), c);
        assert((a + b).drop_last() =~= a + b.drop_last());
        assert((a + b).last() == b.last());
    }
}

/// A text without `c` counts none of it.
proof fn lemma_absent_char(s: Seq<char>, c: char)
    requires
        forall|i: int| 0 <= i < s.len() ==> s[i] != c,
    ensures
        spec_count_char(s, c) == 0,
    decreases s.len(),
{
    if s.len() > 0 {
        let t = s.drop_last();
        assert forall|i: int| 0 <= i < t.len() implies t[i] != c by {
            assert(t[i] == s[i]);
        }
        lemma_absent_char(t, c);
    }
}

/// The first index of `c` after a text without it is that text's length.
proof fn lemma_absent_char_first(s: Seq<char>, c: char)
    requires
        forall|i: int| 0 <= i < s.len() ==> s[i] != c,
    ensures
        spec_first_index(s + seq![c], c) == s.len(),
    decreases s.len(),
{
    if s.len() > 0 {
        let u = s.drop_first();
        assert forall|i: int| 0 <= i < u.len() implies u[i] != c by {
            assert(u[i] == s[i + 1]);
        }
        lemma_absent_char_first(u, c);
        assert((s + seq![c]).drop_first() =~= u + seq![c]);
        assert((s + seq![c])[0] == s[0]);
    } else {
        assert((s + seq![c])[0] == c);
    }
}

/// Splitting at a separator gives back the two parts it joins, each trimmed, when
/// neither part holds the separator and neither is blank; and text holding the
/// separator more than once, or not at all, fails.
pub proof fn lemma_separator_split(base: Seq<char>, quote: Seq<char>, c: char, text: Seq<char>)
    requires
        forall|i: int| 0 <= i < base.len() ==> base[i] != c,
        forall|i: int| 0 <= i < quote.len() ==> quote[i] != c,
    ensures
        trimmed_of(base).len() > 0 && trimmed_of(quote).len() > 0 ==> spec_split_two(base + seq![c] + quote, c)
            == Ok::<(Seq<char>, Seq<char>), Seq<char>>((trimmed_of(base), trimmed_of(quote))),
        spec_count_char(text, c) != 1 ==> spec_split_two(text, c) is Err,
{
    let s = base + seq![c] + quote;
    lemma_absent_char(base, c);
    lemma_absent_char_first(base, c);
    lemma_absent_char(quote, c);
    lemma_count_char_concat(base + seq![c], quote, c);
    lemma_count_char_concat(base, seq![c], c);
    assert(seq![c].drop_last() =~= Seq::<char>::empty());
    assert(seq![c].last() == c);
    assert(spec_count_char(Seq::<char>::empty(), c) == 0);
    assert(spec_count_char(seq![c], c) == 1);
    assert(spec_count_char(s, c) == 1);
    let p = spec_first_index(s, c);
    lemma_first_index_prefix(base + seq![c], quote, c);
    assert(p == base.len());
    assert(s.subrange(0, p) =~= base);
    assert(s.subrange(p + 1, s.len() as int) =~= quote);
}

/// The first index of `c` in a text is unchanged by what follows once `c` has occurred.
proof fn lemma_first_index_prefix(a: Seq<char>, b: Seq<char>, c: char)
    requires
        exists|i: int| 0 <= i < a.len() && a[i] == c,
    ensures
        spec_first_index(a + b, c) == spec_first_index(a, c),
    decreases a.len(),
{
    if a[0] != c {
        let i = choose|i: int| 0 <= i < a.len() && a[i] == c;
        assert(a.drop_first()[i - 1] == c);
        lemma_first_index_prefix(a.drop_first(), b, c);
        assert((a + b).drop_first() =~= a.drop_first() + b);
    }
    assert((a + b)[0] == a[0]);
}

/// A symbol without a separator that no known quote currency ends (leaving at least two
/// characters before it) is split before its last four characters when it has at least
/// six, and otherwise fails.
pub proof fn lemma_unknown_quote_split(s: Seq<char>)
    requires
        forall|j: int| 0 <= j < known_quote_currencies().len() ==> !quote_fits(s, #[trigger] known_quote_currencies()[j]),
    ensures
        s.len() >= 6 ==> spec_split_plain(s) == Ok::<(Seq<char>, Seq<char>), Seq<char>>(
            (s.subrange(0, s.len() - 4), s.subrange(s.len() - 4, s.len() as int)),
        ),
        s.len() < 6 ==> spec_split_plain(s) is Err,
{
    assert(common_quotes() =~= known_quote_currencies());
    lemma_no_quote_fits(s, common_quotes());
}

/// No quote of the list fits, so none is found.
proof fn lemma_no_quote_fits(s: Seq<char>, quotes: Seq<Seq<char>>)
    requires
        forall|j: int| 0 <= j < quotes.len() ==> !quote_fits(s, #[trigger] quotes[j]),
    ensures
        spec_first_quote(s, quotes) is None,
    decreases quotes.len(),
{
    if quotes.len() > 0 {
        assert(!quote_fits(s, quotes[0]));
        let rest = quotes.drop_first();
        assert forall|j: int| 0 <= j < rest.len() implies !quote_fits(s, #[trigger] rest[j]) by {
            assert(rest[j] == quotes[j + 1]);
        }
        lemma_no_quote_fits(s, rest);
    }
}

} // verus!
