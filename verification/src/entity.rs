//! The table of named character references, the search in it, and what is
//! proved of it: every name is a non-empty run of ASCII letters and digits,
//! and the names stand in strictly ascending order.

use crate::text::lemma_char_range;
use vstd::prelude::*;

verus! {

/// How many named character references the table holds.
pub const ENTITY_COUNT: usize = 253;

/// The named character references of HTML 4 and `apos`, each with the
/// character it stands for, in ascending order of the names.
pub const ENTITIES: [(&'static str, char); 253] = [
    ("AElig", '\u{c6}'),
    ("Aacute", '\u{c1}'),
    ("Acirc", '\u{c2}'),
    ("Agrave", '\u{c0}'),
    ("Alpha", '\u{391}'),
    ("Aring", '\u{c5}'),
    ("Atilde", '\u{c3}'),
    ("Auml", '\u{c4}'),
    ("Beta", '\u{392}'),
    ("Ccedil", '\u{c7}'),
    ("Chi", '\u{3a7}'),
    ("Dagger", '\u{2021}'),
    ("Delta", '\u{394}'),
    ("ETH", '\u{d0}'),
    ("Eacute", '\u{c9}'),
    ("Ecirc", '\u{ca}'),
    ("Egrave", '\u{c8}'),
    ("Epsilon", '\u{395}'),
    ("Eta", '\u{397}'),
    ("Euml", '\u{cb}'),
    ("Gamma", '\u{393}'),
    ("Iacute", '\u{cd}'),
    ("Icirc", '\u{ce}'),
    ("Igrave", '\u{cc}'),
    ("Iota", '\u{399}'),
    ("Iuml", '\u{cf}'),
    ("Kappa", '\u{39a}'),
    ("Lambda", '\u{39b}'),
    ("Mu", '\u{39c}'),
    ("Ntilde", '\u{d1}'),
    ("Nu", '\u{39d}'),
    ("OElig", '\u{152}'),
    ("Oacute", '\u{d3}'),
    ("Ocirc", '\u{d4}'),
    ("Ograve", '\u{d2}'),
    ("Omega", '\u{3a9}'),
    ("Omicron", '\u{39f}'),
    ("Oslash", '\u{d8}'),
    ("Otilde", '\u{d5}'),
    ("Ouml", '\u{d6}'),
    ("Phi", '\u{3a6}'),
    ("Pi", '\u{3a0}'),
    ("Prime", '\u{2033}'),
    ("Psi", '\u{3a8}'),
    ("Rho", '\u{3a1}'),
    ("Scaron", '\u{160}'),
    ("Sigma", '\u{3a3}'),
    ("THORN", '\u{de}'),
    ("Tau", '\u{3a4}'),
    ("Theta", '\u{398}'),
    ("Uacute", '\u{da}'),
    ("Ucirc", '\u{db}'),
    ("Ugrave", '\u{d9}'),
    ("Upsilon", '\u{3a5}'),
    ("Uuml", '\u{dc}'),
    ("Xi", '\u{39e}'),
    ("Yacute", '\u{dd}'),
    ("Yuml", '\u{178}'),
    ("Zeta", '\u{396}'),
    ("aacute", '\u{e1}'),
    ("acirc", '\u{e2}'),
    ("acute", '\u{b4}'),
    ("aelig", '\u{e6}'),
    ("agrave", '\u{e0}'),
    ("alefsym", '\u{2135}'),
    ("alpha", '\u{3b1}'),
    ("amp", '\u{26}'),
    ("and", '\u{2227}'),
    ("ang", '\u{2220}'),
    ("apos", '\u{27}'),
    ("aring", '\u{e5}'),
    ("asymp", '\u{2248}'),
    ("atilde", '\u{e3}'),
    ("auml", '\u{e4}'),
    ("bdquo", '\u{201e}'),
    ("beta", '\u{3b2}'),
    ("brvbar", '\u{a6}'),
    ("bull", '\u{2022}'),
    ("cap", '\u{2229}'),
    ("ccedil", '\u{e7}'),
    ("cedil", '\u{b8}'),
    ("cent", '\u{a2}'),
    ("chi", '\u{3c7}'),
    ("circ", '\u{2c6}'),
    ("clubs", '\u{2663}'),
    ("cong", '\u{2245}'),
    ("copy", '\u{a9}'),
    ("crarr", '\u{21b5}'),
    ("cup", '\u{222a}'),
    ("curren", '\u{a4}'),
    ("dArr", '\u{21d3}'),
    ("dagger", '\u{2020}'),
    ("darr", '\u{2193}'),
    ("deg", '\u{b0}'),
    ("delta", '\u{3b4}'),
    ("diams", '\u{2666}'),
    ("divide", '\u{f7}'),
    ("eacute", '\u{e9}'),
    ("ecirc", '\u{ea}'),
    ("egrave", '\u{e8}'),
    ("empty", '\u{2205}'),
    ("emsp", '\u{2003}'),
    ("ensp", '\u{2002}'),
    ("epsilon", '\u{3b5}'),
    ("equiv", '\u{2261}'),
    ("eta", '\u{3b7}'),
    ("eth", '\u{f0}'),
    ("euml", '\u{eb}'),
    ("euro", '\u{20ac}'),
    ("exist", '\u{2203}'),
    ("fnof", '\u{192}'),
    ("forall", '\u{2200}'),
    ("frac12", '\u{bd}'),
    ("frac14", '\u{bc}'),
    ("frac34", '\u{be}'),
    ("frasl", '\u{2044}'),
    ("gamma", '\u{3b3}'),
    ("ge", '\u{2265}'),
    ("gt", '\u{3e}'),
    ("hArr", '\u{21d4}'),
    ("harr", '\u{2194}'),
    ("hearts", '\u{2665}'),
    ("hellip", '\u{2026}'),
    ("iacute", '\u{ed}'),
    ("icirc", '\u{ee}'),
    ("iexcl", '\u{a1}'),
    ("igrave", '\u{ec}'),
    ("image", '\u{2111}'),
    ("infin", '\u{221e}'),
    ("int", '\u{222b}'),
    ("iota", '\u{3b9}'),
    ("iquest", '\u{bf}'),
    ("isin", '\u{2208}'),
    ("iuml", '\u{ef}'),
    ("kappa", '\u{3ba}'),
    ("lArr", '\u{21d0}'),
    ("lambda", '\u{3bb}'),
    ("lang", '\u{2329}'),
    ("laquo", '\u{ab}'),
    ("larr", '\u{2190}'),
    ("lceil", '\u{2308}'),
    ("ldquo", '\u{201c}'),
    ("le", '\u{2264}'),
    ("lfloor", '\u{230a}'),
    ("lowast", '\u{2217}'),
    ("loz", '\u{25ca}'),
    ("lrm", '\u{200e}'),
    ("lsaquo", '\u{2039}'),
    ("lsquo", '\u{2018}'),
    ("lt", '\u{3c}'),
    ("macr", '\u{af}'),
    ("mdash", '\u{2014}'),
    ("micro", '\u{b5}'),
    ("middot", '\u{b7}'),
    ("minus", '\u{2212}'),
    ("mu", '\u{3bc}'),
    ("nabla", '\u{2207}'),
    ("nbsp", '\u{a0}'),
    ("ndash", '\u{2013}'),
    ("ne", '\u{2260}'),
    ("ni", '\u{220b}'),
    ("not", '\u{ac}'),
    ("notin", '\u{2209}'),
    ("nsub", '\u{2284}'),
    ("ntilde", '\u{f1}'),
    ("nu", '\u{3bd}'),
    ("oacute", '\u{f3}'),
    ("ocirc", '\u{f4}'),
    ("oelig", '\u{153}'),
    ("ograve", '\u{f2}'),
    ("oline", '\u{203e}'),
    ("omega", '\u{3c9}'),
    ("omicron", '\u{3bf}'),
    ("oplus", '\u{2295}'),
    ("or", '\u{2228}'),
    ("ordf", '\u{aa}'),
    ("ordm", '\u{ba}'),
    ("oslash", '\u{f8}'),
    ("otilde", '\u{f5}'),
    ("otimes", '\u{2297}'),
    ("ouml", '\u{f6}'),
    ("para", '\u{b6}'),
    ("part", '\u{2202}'),
    ("permil", '\u{2030}'),
    ("perp", '\u{22a5}'),
    ("phi", '\u{3c6}'),
    ("pi", '\u{3c0}'),
    ("piv", '\u{3d6}'),
    ("plusmn", '\u{b1}'),
    ("pound", '\u{a3}'),
    ("prime", '\u{2032}'),
    ("prod", '\u{220f}'),
    ("prop", '\u{221d}'),
    ("psi", '\u{3c8}'),
    ("quot", '\u{22}'),
    ("rArr", '\u{21d2}'),
    ("radic", '\u{221a}'),
    ("rang", '\u{232a}'),
    ("raquo", '\u{bb}'),
    ("rarr", '\u{2192}'),
    ("rceil", '\u{2309}'),
    ("rdquo", '\u{201d}'),
    ("real", '\u{211c}'),
    ("reg", '\u{ae}'),
    ("rfloor", '\u{230b}'),
    ("rho", '\u{3c1}'),
    ("rlm", '\u{200f}'),
    ("rsaquo", '\u{203a}'),
    ("rsquo", '\u{2019}'),
    ("sbquo", '\u{201a}'),
    ("scaron", '\u{161}'),
    ("sdot", '\u{22c5}'),
    ("sect", '\u{a7}'),
    ("shy", '\u{ad}'),
    ("sigma", '\u{3c3}'),
    ("sigmaf", '\u{3c2}'),
    ("sim", '\u{223c}'),
    ("spades", '\u{2660}'),
    ("sub", '\u{2282}'),
    ("sube", '\u{2286}'),
    ("sum", '\u{2211}'),
    ("sup", '\u{2283}'),
    ("sup1", '\u{b9}'),
    ("sup2", '\u{b2}'),
    ("sup3", '\u{b3}'),
    ("supe", '\u{2287}'),
    ("szlig", '\u{df}'),
    ("tau", '\u{3c4}'),
    ("there4", '\u{2234}'),
    ("theta", '\u{3b8}'),
    ("thetasym", '\u{3d1}'),
    ("thinsp", '\u{2009}'),
    ("thorn", '\u{fe}'),
    ("tilde", '\u{2dc}'),
    ("times", '\u{d7}'),
    ("trade", '\u{2122}'),
    ("uArr", '\u{21d1}'),
    ("uacute", '\u{fa}'),
    ("uarr", '\u{2191}'),
    ("ucirc", '\u{fb}'),
    ("ugrave", '\u{f9}'),
    ("uml", '\u{a8}'),
    ("upsih", '\u{3d2}'),
    ("upsilon", '\u{3c5}'),
    ("uuml", '\u{fc}'),
    ("weierp", '\u{2118}'),
    ("xi", '\u{3be}'),
    ("yacute", '\u{fd}'),
    ("yen", '\u{a5}'),
    ("yuml", '\u{ff}'),
    ("zeta", '\u{3b6}'),
    ("zwj", '\u{200d}'),
    ("zwnj", '\u{200c}'),
];

/// The name of the table's entry `i`.
pub open spec fn entity_name(i: int) -> Seq<char> {
    ENTITIES[i].0@
}

/// The character that the table's entry `i` stands for.
pub open spec fn entity_value(i: int) -> char {
    ENTITIES[i].1
}

/// Whether `c` is an ASCII letter or digit.
pub open spec fn is_name_char(c: char) -> bool {
    ('0' <= c <= '9') || ('A' <= c <= 'Z') || ('a' <= c <= 'z')
}

/// Whether `s` holds only ASCII letters and digits from index `k` on.
pub open spec fn name_chars_from(s: Seq<char>, k: int) -> bool
    decreases s.len() - k,
{
    if k >= s.len() {
        true
    } else {
        is_name_char(s[k]) && name_chars_from(s, k + 1)
    }
}

/// Whether `a` comes before `b` in lexicographic order, given that the two
/// agree before index `k`.
pub open spec fn lex_lt_from(a: Seq<char>, b: Seq<char>, k: int) -> bool
    decreases a.len() - k,
{
    if k >= b.len() {
        false
    } else if k >= a.len() {
        true
    } else if a[k] != b[k] {
        a[k] < b[k]
    } else {
        lex_lt_from(a, b, k + 1)
    }
}

/// Whether `a` comes before `b` in lexicographic order.
pub open spec fn lex_lt(a: Seq<char>, b: Seq<char>) -> bool {
    lex_lt_from(a, b, 0)
}

/// What is asked of the table's entry `i`: a non-empty name of letters and
/// digits that comes before the next entry's name.
pub open spec fn entry_ok(i: int) -> bool {
    &&& entity_name(i).len() > 0
    &&& name_chars_from(entity_name(i), 0)
    &&& i + 1 < ENTITY_COUNT ==> lex_lt(entity_name(i), entity_name(i + 1))
}

/// Every entry of the table is as `entry_ok` asks.
pub proof fn lemma_entries_ok()
    ensures
        forall|i: int| 0 <= i < ENTITY_COUNT ==> entry_ok(i),
{
    reveal_with_fuel(lex_lt_from, 9);
    reveal_with_fuel(name_chars_from, 9);
    reveal_strlit("AElig");
    reveal_strlit("Aacute");
    reveal_strlit("Acirc");
    reveal_strlit("Agrave");
    reveal_strlit("Alpha");
    reveal_strlit("Aring");
    reveal_strlit("Atilde");
    reveal_strlit("Auml");
    reveal_strlit("Beta");
    reveal_strlit("Ccedil");
    reveal_strlit("Chi");
    reveal_strlit("Dagger");
    reveal_strlit("Delta");
    reveal_strlit("ETH");
    reveal_strlit("Eacute");
    reveal_strlit("Ecirc");
    reveal_strlit("Egrave");
    reveal_strlit("Epsilon");
    reveal_strlit("Eta");
    reveal_strlit("Euml");
    reveal_strlit("Gamma");
    reveal_strlit("Iacute");
    reveal_strlit("Icirc");
    reveal_strlit("Igrave");
    reveal_strlit("Iota");
    reveal_strlit("Iuml");
    reveal_strlit("Kappa");
    reveal_strlit("Lambda");
    reveal_strlit("Mu");
    reveal_strlit("Ntilde");
    reveal_strlit("Nu");
    reveal_strlit("OElig");
    reveal_strlit("Oacute");
    reveal_strlit("Ocirc");
    reveal_strlit("Ograve");
    reveal_strlit("Omega");
    reveal_strlit("Omicron");
    reveal_strlit("Oslash");
    reveal_strlit("Otilde");
    reveal_strlit("Ouml");
    reveal_strlit("Phi");
    reveal_strlit("Pi");
    reveal_strlit("Prime");
    reveal_strlit("Psi");
    reveal_strlit("Rho");
    reveal_strlit("Scaron");
    reveal_strlit("Sigma");
    reveal_strlit("THORN");
    reveal_strlit("Tau");
    reveal_strlit("Theta");
    reveal_strlit("Uacute");
    reveal_strlit("Ucirc");
    reveal_strlit("Ugrave");
    reveal_strlit("Upsilon");
    reveal_strlit("Uuml");
    reveal_strlit("Xi");
    reveal_strlit("Yacute");
    reveal_strlit("Yuml");
    reveal_strlit("Zeta");
    reveal_strlit("aacute");
    reveal_strlit("acirc");
    reveal_strlit("acute");
    reveal_strlit("aelig");
    reveal_strlit("agrave");
    reveal_strlit("alefsym");
    reveal_strlit("alpha");
    reveal_strlit("amp");
    reveal_strlit("and");
    reveal_strlit("ang");
    reveal_strlit("apos");
    reveal_strlit("aring");
    reveal_strlit("asymp");
    reveal_strlit("atilde");
    reveal_strlit("auml");
    reveal_strlit("bdquo");
    reveal_strlit("beta");
    reveal_strlit("brvbar");
    reveal_strlit("bull");
    reveal_strlit("cap");
    reveal_strlit("ccedil");
    reveal_strlit("cedil");
    reveal_strlit("cent");
    reveal_strlit("chi");
    reveal_strlit("circ");
    reveal_strlit("clubs");
    reveal_strlit("cong");
    reveal_strlit("copy");
    reveal_strlit("crarr");
    reveal_strlit("cup");
    reveal_strlit("curren");
    reveal_strlit("dArr");
    reveal_strlit("dagger");
    reveal_strlit("darr");
    reveal_strlit("deg");
    reveal_strlit("delta");
    reveal_strlit("diams");
    reveal_strlit("divide");
    reveal_strlit("eacute");
    reveal_strlit("ecirc");
    reveal_strlit("egrave");
    reveal_strlit("empty");
    reveal_strlit("emsp");
    reveal_strlit("ensp");
    reveal_strlit("epsilon");
    reveal_strlit("equiv");
    reveal_strlit("eta");
    reveal_strlit("eth");
    reveal_strlit("euml");
    reveal_strlit("euro");
    reveal_strlit("exist");
    reveal_strlit("fnof");
    reveal_strlit("forall");
    reveal_strlit("frac12");
    reveal_strlit("frac14");
    reveal_strlit("frac34");
    reveal_strlit("frasl");
    reveal_strlit("gamma");
    reveal_strlit("ge");
    reveal_strlit("gt");
    reveal_strlit("hArr");
    reveal_strlit("harr");
    reveal_strlit("hearts");
    reveal_strlit("hellip");
    reveal_strlit("iacute");
    reveal_strlit("icirc");
    reveal_strlit("iexcl");
    reveal_strlit("igrave");
    reveal_strlit("image");
    reveal_strlit("infin");
    reveal_strlit("int");
    reveal_strlit("iota");
    reveal_strlit("iquest");
    reveal_strlit("isin");
    reveal_strlit("iuml");
    reveal_strlit("kappa");
    reveal_strlit("lArr");
    reveal_strlit("lambda");
    reveal_strlit("lang");
    reveal_strlit("laquo");
    reveal_strlit("larr");
    reveal_strlit("lceil");
    reveal_strlit("ldquo");
    reveal_strlit("le");
    reveal_strlit("lfloor");
    reveal_strlit("lowast");
    reveal_strlit("loz");
    reveal_strlit("lrm");
    reveal_strlit("lsaquo");
    reveal_strlit("lsquo");
    reveal_strlit("lt");
    reveal_strlit("macr");
    reveal_strlit("mdash");
    reveal_strlit("micro");
    reveal_strlit("middot");
    reveal_strlit("minus");
    reveal_strlit("mu");
    reveal_strlit("nabla");
    reveal_strlit("nbsp");
    reveal_strlit("ndash");
    reveal_strlit("ne");
    reveal_strlit("ni");
    reveal_strlit("not");
    reveal_strlit("notin");
    reveal_strlit("nsub");
    reveal_strlit("ntilde");
    reveal_strlit("nu");
    reveal_strlit("oacute");
    reveal_strlit("ocirc");
    reveal_strlit("oelig");
    reveal_strlit("ograve");
    reveal_strlit("oline");
    reveal_strlit("omega");
    reveal_strlit("omicron");
    reveal_strlit("oplus");
    reveal_strlit("or");
    reveal_strlit("ordf");
    reveal_strlit("ordm");
    reveal_strlit("oslash");
    reveal_strlit("otilde");
    reveal_strlit("otimes");
    reveal_strlit("ouml");
    reveal_strlit("para");
    reveal_strlit("part");
    reveal_strlit("permil");
    reveal_strlit("perp");
    reveal_strlit("phi");
    reveal_strlit("pi");
    reveal_strlit("piv");
    reveal_strlit("plusmn");
    reveal_strlit("pound");
    reveal_strlit("prime");
    reveal_strlit("prod");
    reveal_strlit("prop");
    reveal_strlit("psi");
    reveal_strlit("quot");
    reveal_strlit("rArr");
    reveal_strlit("radic");
    reveal_strlit("rang");
    reveal_strlit("raquo");
    reveal_strlit("rarr");
    reveal_strlit("rceil");
    reveal_strlit("rdquo");
    reveal_strlit("real");
    reveal_strlit("reg");
    reveal_strlit("rfloor");
    reveal_strlit("rho");
    reveal_strlit("rlm");
    reveal_strlit("rsaquo");
    reveal_strlit("rsquo");
    reveal_strlit("sbquo");
    reveal_strlit("scaron");
    reveal_strlit("sdot");
    reveal_strlit("sect");
    reveal_strlit("shy");
    reveal_strlit("sigma");
    reveal_strlit("sigmaf");
    reveal_strlit("sim");
    reveal_strlit("spades");
    reveal_strlit("sub");
    reveal_strlit("sube");
    reveal_strlit("sum");
    reveal_strlit("sup");
    reveal_strlit("sup1");
    reveal_strlit("sup2");
    reveal_strlit("sup3");
    reveal_strlit("supe");
    reveal_strlit("szlig");
    reveal_strlit("tau");
    reveal_strlit("there4");
    reveal_strlit("theta");
    reveal_strlit("thetasym");
    reveal_strlit("thinsp");
    reveal_strlit("thorn");
    reveal_strlit("tilde");
    reveal_strlit("times");
    reveal_strlit("trade");
    reveal_strlit("uArr");
    reveal_strlit("uacute");
    reveal_strlit("uarr");
    reveal_strlit("ucirc");
    reveal_strlit("ugrave");
    reveal_strlit("uml");
    reveal_strlit("upsih");
    reveal_strlit("upsilon");
    reveal_strlit("uuml");
    reveal_strlit("weierp");
    reveal_strlit("xi");
    reveal_strlit("yacute");
    reveal_strlit("yen");
    reveal_strlit("yuml");
    reveal_strlit("zeta");
    reveal_strlit("zwj");
    reveal_strlit("zwnj");
}

/// What the table holds under `name`: the character of the entry of that
/// name, if there is one.
pub open spec fn named_entity(name: Seq<char>) -> Option<char> {
    if exists|i: int| 0 <= i < ENTITY_COUNT && entity_name(i) == name {
        Some(entity_value(choose|i: int| 0 <= i < ENTITY_COUNT && entity_name(i) == name))
    } else {
        None
    }
}

/// Whether `s` is a non-empty run of ASCII letters and digits.
pub open spec fn is_name(s: Seq<char>) -> bool {
    s.len() > 0 && forall|j: int| 0 <= j < s.len() ==> is_name_char(#[trigger] s[j])
}

proof fn lemma_name_chars_from(s: Seq<char>, k: int)
    requires
        0 <= k,
        name_chars_from(s, k),
    ensures
        forall|j: int| k <= j < s.len() ==> is_name_char(#[trigger] s[j]),
    decreases s.len() - k,
{
    if k < s.len() {
        lemma_name_chars_from(s, k + 1);
    }
}

proof fn lemma_lex_lt_from_irreflexive(a: Seq<char>, k: int)
    requires
        0 <= k,
    ensures
        !lex_lt_from(a, a, k),
    decreases a.len() - k,
{
    if k < a.len() {
        lemma_lex_lt_from_irreflexive(a, k + 1);
    }
}

proof fn lemma_lex_lt_from_transitive(a: Seq<char>, b: Seq<char>, c: Seq<char>, k: int)
    requires
        0 <= k,
        lex_lt_from(a, b, k),
        lex_lt_from(b, c, k),
    ensures
        lex_lt_from(a, c, k),
    decreases a.len() - k,
{
    if k < a.len() && a[k] == b[k] && b[k] == c[k] {
        lemma_lex_lt_from_transitive(a, b, c, k + 1);
    }
}

/// Where `a` and `b` agree before index `k`, their order is decided from `k`
/// on.
proof fn lemma_lex_lt_after_equal_prefix(a: Seq<char>, b: Seq<char>, k: int)
    requires
        0 <= k <= a.len(),
        k <= b.len(),
        forall|j: int| 0 <= j < k ==> a[j] == b[j],
    ensures
        lex_lt(a, b) == lex_lt_from(a, b, k),
    decreases k,
{
    if k > 0 {
        lemma_lex_lt_after_equal_prefix(a, b, k - 1);
    }
}

/// No sequence comes before itself.
pub proof fn lemma_lex_lt_irreflexive(a: Seq<char>)
    ensures
        !lex_lt(a, a),
{
    lemma_lex_lt_from_irreflexive(a, 0);
}

/// What comes before something that comes before `c` comes before `c`.
pub proof fn lemma_lex_lt_transitive(a: Seq<char>, b: Seq<char>, c: Seq<char>)
    requires
        lex_lt(a, b),
        lex_lt(b, c),
    ensures
        lex_lt(a, c),
{
    lemma_lex_lt_from_transitive(a, b, c, 0);
}

/// The names of the table stand in strictly ascending order.
pub proof fn lemma_table_ascending(i: int, j: int)
    requires
        0 <= i < j < ENTITY_COUNT,
    ensures
        lex_lt(entity_name(i), entity_name(j)),
    decreases j - i,
{
    lemma_entries_ok();
    assert(entry_ok(j - 1));
    if i + 1 < j {
        lemma_table_ascending(i, j - 1);
        lemma_lex_lt_transitive(entity_name(i), entity_name(j - 1), entity_name(j));
    }
}

/// No two entries of the table have the same name.
pub proof fn lemma_names_distinct(i: int, j: int)
    requires
        0 <= i < ENTITY_COUNT,
        0 <= j < ENTITY_COUNT,
        i != j,
    ensures
        entity_name(i) != entity_name(j),
{
    if i < j {
        lemma_table_ascending(i, j);
    } else {
        lemma_table_ascending(j, i);
    }
    lemma_lex_lt_irreflexive(entity_name(i));
}

/// Every name of the table is a non-empty run of ASCII letters and digits.
pub proof fn lemma_names_are_names(i: int)
    requires
        0 <= i < ENTITY_COUNT,
    ensures
        is_name(entity_name(i)),
{
    lemma_entries_ok();
    assert(entry_ok(i));
    lemma_name_chars_from(entity_name(i), 0);
}

/// Under the name of its entry `i` the table holds that entry's character.
pub proof fn lemma_named_entity_at(i: int)
    requires
        0 <= i < ENTITY_COUNT,
    ensures
        named_entity(entity_name(i)) == Some(entity_value(i)),
{
    let k = choose|k: int| 0 <= k < ENTITY_COUNT && entity_name(k) == entity_name(i);
    if k != i {
        lemma_names_distinct(k, i);
    }
}

/// Where a name stands relative to another.
#[derive(Clone, Copy, Debug)]
pub enum Position {
    /// Before the other.
    Before,
    /// At the other: the two are equal.
    Same,
    /// After the other.
    After,
}

/// Where `name` stands relative to `other` in lexicographic order.
pub fn position(name: &[char], other: &str) -> (r: Position)
    requires
        vstd::utf8::is_ascii_chars(other@),
    ensures
        match r {
            Position::Before => lex_lt(name@, other@),
            Position::Same => name@ == other@,
            Position::After => lex_lt(other@, name@),
        },
{
    let bytes = other.as_bytes();
    proof {
        vstd::string::is_ascii_spec_bytes(other);
    }
    let mut k: usize = 0;
    while k < name.len() && k < bytes.len()
        invariant
            k <= name@.len(),
            k <= bytes@.len(),
            bytes@.len() == other@.len(),
            vstd::utf8::is_ascii_chars(other@),
            forall|j: int| 0 <= j < other@.len() ==> #[trigger] bytes@[j] == other@[j] as u8,
            forall|j: int| 0 <= j < k ==> name@[j] == other@[j],
        decreases name@.len() - k,
    {
        let c: u32 = name[k] as u32;
        let d: u32 = bytes[k] as u32;
        proof {
            lemma_char_range(name@[k as int]);
        }
        if c != d {
            proof {
                lemma_lex_lt_after_equal_prefix(name@, other@, k as int);
                lemma_lex_lt_after_equal_prefix(other@, name@, k as int);
            }
            if c < d {
                return Position::Before;
            } else {
                return Position::After;
            }
        }
        k += 1;
    }
    proof {
        lemma_lex_lt_after_equal_prefix(name@, other@, k as int);
        lemma_lex_lt_after_equal_prefix(other@, name@, k as int);
    }
    if k < bytes.len() {
        Position::Before
    } else if k < name.len() {
        Position::After
    } else {
        assert(name@ =~= other@);
        Position::Same
    }
}

/// Looks `entity` up in the table by binary search.
pub fn decode_named_entity(entity: &[char]) -> (r: Option<char>)
    ensures
        r == named_entity(entity@),
{
    let mut lo: usize = 0;
    let mut hi: usize = ENTITY_COUNT;
    while lo < hi
        invariant
            lo <= hi <= ENTITY_COUNT,
            forall|i: int| 0 <= i < lo ==> lex_lt(#[trigger] entity_name(i), entity@),
            forall|i: int| hi <= i < ENTITY_COUNT ==> lex_lt(entity@, #[trigger] entity_name(i)),
        decreases hi - lo,
    {
        let mid: usize = lo + (hi - lo) / 2;
        proof {
            lemma_names_are_names(mid as int);
        }
        match position(entity, ENTITIES[mid].0) {
            Position::Before => {
                assert forall|i: int| mid <= i < ENTITY_COUNT implies lex_lt(
                    entity@,
                    #[trigger] entity_name(i),
                ) by {
                    if mid < i {
                        lemma_table_ascending(mid as int, i);
                        lemma_lex_lt_transitive(entity@, entity_name(mid as int), entity_name(i));
                    }
                }
                hi = mid;
            },
            Position::Same => {
                proof {
                    lemma_named_entity_at(mid as int);
                }
                return Some(ENTITIES[mid].1);
            },
            Position::After => {
                assert forall|i: int| 0 <= i <= mid implies lex_lt(
                    #[trigger] entity_name(i),
                    entity@,
                ) by {
                    if i < mid {
                        lemma_table_ascending(i, mid as int);
                        lemma_lex_lt_transitive(entity_name(i), entity_name(mid as int), entity@);
                    }
                }
                lo = mid + 1;
            },
        }
    }
    proof {
        lemma_lex_lt_irreflexive(entity@);
        assert forall|i: int| 0 <= i < ENTITY_COUNT implies entity_name(i) != entity@ by {
            if i < lo {
                assert(lex_lt(entity_name(i), entity@));
            } else {
                assert(lex_lt(entity@, entity_name(i)));
            }
        }
    }
    None
}

} // verus!
