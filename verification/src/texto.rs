//! Character-level text handling shared by the rest of the library.
//!
//! Texts are modelled by their `Seq<char>` view; the executable helpers work
//! on `Vec<char>` and convert from and to `String` at the edges.

use vstd::prelude::*;

verus! {

// ─── White space ─────────────────────────────────────────────────────────────

/// The Unicode `White_Space` property, which `char::is_whitespace` tests.
pub open spec fn espacio(c: char) -> bool {
    let u = c as u32;
    ||| 0x09 <= u <= 0x0D
    ||| u == 0x20
    ||| u == 0x85
    ||| u == 0xA0
    ||| u == 0x1680
    ||| 0x2000 <= u <= 0x200A
    ||| u == 0x2028
    ||| u == 0x2029
    ||| u == 0x202F
    ||| u == 0x205F
    ||| u == 0x3000
}

/// The no-break space, which spreadsheets leave inside names and RUTs.
pub open spec fn nbsp() -> char {
    '\u{00A0}'
}

pub fn es_espacio(c: char) -> (r: bool)
    ensures
        r == espacio(c),
{
    let u = c as u32;
    (0x09 <= u && u <= 0x0D) || u == 0x20 || u == 0x85 || u == 0xA0 || u == 0x1680 || (0x2000
        <= u && u <= 0x200A) || u == 0x2028 || u == 0x2029 || u == 0x202F || u == 0x205F || u
        == 0x3000
}

/// Every character of `s` is white space (so `s.trim()` is empty).
pub open spec fn en_blanco(s: Seq<char>) -> bool {
    forall|i: int| 0 <= i < s.len() ==> espacio(#[trigger] s[i])
}

// ─── trim ────────────────────────────────────────────────────────────────────

/// `s` without its leading white space.
pub open spec fn recortar_inicio(s: Seq<char>) -> Seq<char>
    decreases s.len(),
{
    if s.len() > 0 && espacio(s[0]) {
        recortar_inicio(s.drop_first())
    } else {
        s
    }
}

/// `s` without its trailing white space.
pub open spec fn recortar_fin(s: Seq<char>) -> Seq<char>
    decreases s.len(),
{
    if s.len() > 0 && espacio(s.last()) {
        recortar_fin(s.drop_last())
    } else {
        s
    }
}

/// What `str::trim` gives back: `s` without white space at either end.
pub open spec fn recortar(s: Seq<char>) -> Seq<char> {
    recortar_fin(recortar_inicio(s))
}

/// A trimmed text is empty exactly when the text is all white space.
pub proof fn lema_recortar_vacio(s: Seq<char>)
    ensures
        (recortar(s).len() == 0) == en_blanco(s),
    decreases s.len(),
{
    lema_recortar_inicio_vacio(s);
    lema_recortar_fin_vacio(recortar_inicio(s));
}

proof fn lema_recortar_inicio_vacio(s: Seq<char>)
    ensures
        (recortar_inicio(s).len() == 0) == en_blanco(s),
        recortar_inicio(s).len() > 0 ==> !espacio(recortar_inicio(s)[0]),
    decreases s.len(),
{
    if s.len() > 0 && espacio(s[0]) {
        lema_recortar_inicio_vacio(s.drop_first());
        if en_blanco(s.drop_first()) {
            assert forall|i: int| 0 <= i < s.len() implies espacio(#[trigger] s[i]) by {
                if i > 0 {
                    assert(s[i] == s.drop_first()[i - 1]);
                }
            }
        }
        if en_blanco(s) {
            assert forall|i: int| 0 <= i < s.drop_first().len() implies espacio(
                #[trigger] s.drop_first()[i],
            ) by {
                assert(s.drop_first()[i] == s[i + 1]);
            }
        }
    } else if s.len() > 0 {
        assert(!espacio(s[0]));
    }
}

proof fn lema_recortar_fin_vacio(s: Seq<char>)
    requires
        s.len() > 0 ==> !espacio(s[0]),
    ensures
        (recortar_fin(s).len() == 0) == (s.len() == 0),
    decreases s.len(),
{
    if s.len() > 0 && espacio(s.last()) {
        assert(s.len() > 1);
        assert(s.drop_last()[0] == s[0]);
        lema_recortar_fin_vacio(s.drop_last());
    }
}

/// Index of the first character of `v` that is not white space, or its length.
fn inicio_sin_espacio(v: &Vec<char>) -> (i: usize)
    ensures
        i <= v.len(),
        recortar_inicio(v@) == v@.skip(i as int),
{
    let mut i: usize = 0;
    assert(v@.skip(0) == v@);
    while i < v.len() && es_espacio(v[i])
        invariant
            i <= v.len(),
            recortar_inicio(v@) == recortar_inicio(v@.skip(i as int)),
        decreases v.len() - i,
    {
        assert(v@.skip(i as int).drop_first() == v@.skip(i + 1));
        i = i + 1;
    }
    i
}

/// End (exclusive) of `v[..hasta]` once its trailing white space is removed.
fn fin_sin_espacio(v: &Vec<char>, desde: usize) -> (j: usize)
    requires
        desde <= v.len(),
    ensures
        desde <= j <= v.len(),
        recortar_fin(v@.skip(desde as int)) == v@.subrange(desde as int, j as int),
{
    let mut j: usize = v.len();
    assert(v@.skip(desde as int) == v@.subrange(desde as int, v.len() as int));
    while j > desde && es_espacio(v[j - 1])
        invariant
            desde <= j <= v.len(),
            recortar_fin(v@.skip(desde as int)) == recortar_fin(
                v@.subrange(desde as int, j as int),
            ),
        decreases j,
    {
        assert(v@.subrange(desde as int, j as int).drop_last() == v@.subrange(
            desde as int,
            j - 1,
        ));
        j = j - 1;
    }
    j
}

/// `v[desde..hasta]` as a new vector.
pub fn tramo(v: &Vec<char>, desde: usize, hasta: usize) -> (r: Vec<char>)
    requires
        desde <= hasta <= v.len(),
    ensures
        r@ == v@.subrange(desde as int, hasta as int),
{
    let mut r: Vec<char> = Vec::new();
    let mut k: usize = desde;
    while k < hasta
        invariant
            desde <= k <= hasta <= v.len(),
            r@ == v@.subrange(desde as int, k as int),
        decreases hasta - k,
    {
        r.push(v[k]);
        assert(v@.subrange(desde as int, k + 1) == v@.subrange(desde as int, k as int).push(
            v@[k as int],
        ));
        k = k + 1;
    }
    r
}

/// `str::trim` on a vector of characters.
pub fn recortado(v: &Vec<char>) -> (r: Vec<char>)
    ensures
        r@ == recortar(v@),
{
    let i = inicio_sin_espacio(v);
    let j = fin_sin_espacio(v, i);
    tramo(v, i, j)
}

/// Whether the text is empty once trimmed.
pub fn esta_en_blanco(v: &Vec<char>) -> (r: bool)
    ensures
        r == en_blanco(v@),
        r == (recortar(v@).len() == 0),
{
    proof {
        lema_recortar_vacio(v@);
    }
    let t = recortado(v);
    t.len() == 0
}

// ─── Conversions ─────────────────────────────────────────────────────────────

/// `String::push`: appends one character.
#[verifier::external_body]
pub(crate) fn empujar(s: &mut String, c: char)
    ensures
        final(s)@ == old(s)@.push(c),
{
    s.push(c);
}

/// The characters of a text, in order.
pub fn caracteres(s: &str) -> (v: Vec<char>)
    ensures
        v@ == s@,
{
    let mut v: Vec<char> = Vec::new();
    for c in it: s.chars()
        invariant
            v@ == it.seq().take(it.index() as int),
            it.seq() == s@,
    {
        v.push(c);
    }
    v
}

/// The text made of the given characters.
pub fn texto_de(v: &Vec<char>) -> (s: String)
    ensures
        s@ == v@,
{
    let mut s = String::new();
    let mut i: usize = 0;
    while i < v.len()
        invariant
            i <= v.len(),
            s@ == v@.take(i as int),
        decreases v.len() - i,
    {
        empujar(&mut s, v[i]);
        assert(v@.take(i + 1) == v@.take(i as int).push(v@[i as int]));
        i = i + 1;
    }
    assert(v@.take(v.len() as int) == v@);
    s
}

/// Appends the characters of `w` to `v`.
pub fn anexar(v: &mut Vec<char>, w: &Vec<char>)
    ensures
        final(v)@ == old(v)@ + w@,
{
    let mut i: usize = 0;
    while i < w.len()
        invariant
            i <= w.len(),
            v@ == old(v)@ + w@.take(i as int),
        decreases w.len() - i,
    {
        v.push(w[i]);
        assert(w@.take(i + 1) == w@.take(i as int).push(w@[i as int]));
        i = i + 1;
    }
    assert(w@.take(w.len() as int) == w@);
}

/// Appends the characters of a text to `v`.
pub fn anexar_str(v: &mut Vec<char>, s: &str)
    ensures
        final(v)@ == old(v)@ + s@,
{
    let w = caracteres(s);
    anexar(v, &w);
}

/// Whether two character vectors are equal.
pub fn iguales(a: &Vec<char>, b: &Vec<char>) -> (r: bool)
    ensures
        r == (a@ == b@),
{
    if a.len() != b.len() {
        return false;
    }
    let mut i: usize = 0;
    while i < a.len()
        invariant
            a.len() == b.len(),
            i <= a.len(),
            forall|k: int| 0 <= k < i ==> a@[k] == b@[k],
        decreases a.len() - i,
    {
        if a[i] != b[i] {
            return false;
        }
        i = i + 1;
    }
    assert(a@ =~= b@);
    true
}

/// Whether a character vector spells the given text.
pub fn es_literal(a: &Vec<char>, s: &str) -> (r: bool)
    ensures
        r == (a@ == s@),
{
    let b = caracteres(s);
    iguales(a, &b)
}

// ─── Case mapping ────────────────────────────────────────────────────────────

/// What `str::to_uppercase` returns for a text (the Unicode full case
/// mapping, which may change a text's length).
pub uninterp spec fn mayusculas(s: Seq<char>) -> Seq<char>;

/// What `str::to_lowercase` returns for a text.
pub uninterp spec fn minusculas(s: Seq<char>) -> Seq<char>;

/// A text made of ASCII characters only.
pub open spec fn es_ascii(s: Seq<char>) -> bool {
    forall|i: int| 0 <= i < s.len() ==> (s[i] as u32) < 128
}

/// The ASCII upper case of a character: a–z become A–Z, the rest stays.
pub open spec fn mayuscula_ascii(c: char) -> char {
    if 'a' <= c && c <= 'z' {
        ((c as u32) - 32) as char
    } else {
        c
    }
}

/// The ASCII lower case of a character: A–Z become a–z, the rest stays.
pub open spec fn minuscula_ascii(c: char) -> char {
    if 'A' <= c && c <= 'Z' {
        ((c as u32) + 32) as char
    } else {
        c
    }
}

/// `str::to_uppercase`: the text in upper case; its result is named, not
/// described: the Unicode case tables are not restated here. On ASCII text
/// it maps each character alone, a–z to A–Z, as `char::to_uppercase`
/// documents.
#[verifier::external_body]
pub(crate) fn a_mayusculas(s: &str) -> (r: String)
    ensures
        r@ == mayusculas(s@),
        es_ascii(s@) ==> r@ == s@.map_values(|c: char| mayuscula_ascii(c)),
{
    s.to_uppercase()
}

/// `str::to_lowercase`: the text in lower case; its result is named, not
/// described, as for `a_mayusculas`. On ASCII text it maps each character
/// alone, A–Z to a–z.
#[verifier::external_body]
pub(crate) fn a_minusculas(s: &str) -> (r: String)
    ensures
        r@ == minusculas(s@),
        es_ascii(s@) ==> r@ == s@.map_values(|c: char| minuscula_ascii(c)),
{
    s.to_lowercase()
}

/// Upper case of a character vector.
pub fn mayusculas_de(v: &Vec<char>) -> (r: Vec<char>)
    ensures
        r@ == mayusculas(v@),
        es_ascii(v@) ==> r@ == v@.map_values(|c: char| mayuscula_ascii(c)),
{
    let s = texto_de(v);
    let m = a_mayusculas(s.as_str());
    caracteres(m.as_str())
}

/// Lower case of a character vector.
pub fn minusculas_de(v: &Vec<char>) -> (r: Vec<char>)
    ensures
        r@ == minusculas(v@),
        es_ascii(v@) ==> r@ == v@.map_values(|c: char| minuscula_ascii(c)),
{
    let s = texto_de(v);
    let m = a_minusculas(s.as_str());
    caracteres(m.as_str())
}

// ─── Decimal numbers ─────────────────────────────────────────────────────────

/// The decimal digit for `d < 10`.
pub open spec fn digito(d: nat) -> char {
    if d == 0 {
        '0'
    } else if d == 1 {
        '1'
    } else if d == 2 {
        '2'
    } else if d == 3 {
        '3'
    } else if d == 4 {
        '4'
    } else if d == 5 {
        '5'
    } else if d == 6 {
        '6'
    } else if d == 7 {
        '7'
    } else if d == 8 {
        '8'
    } else {
        '9'
    }
}

/// The decimal numeral of `n`, as `Display` writes an unsigned integer.
pub open spec fn decimal(n: nat) -> Seq<char>
    decreases n,
{
    if n < 10 {
        seq![digito(n)]
    } else {
        decimal(n / 10).push(digito(n % 10))
    }
}

/// `n` written with at least `ancho` digits, zeros in front (`{:0ancho$}`).
pub open spec fn decimal_relleno(n: nat, ancho: nat) -> Seq<char> {
    let d = decimal(n);
    if d.len() >= ancho {
        d
    } else {
        Seq::new((ancho - d.len()) as nat, |i: int| '0') + d
    }
}

fn digito_exec(d: u64) -> (c: char)
    requires
        d < 10,
    ensures
        c == digito(d as nat),
{
    if d == 0 {
        '0'
    } else if d == 1 {
        '1'
    } else if d == 2 {
        '2'
    } else if d == 3 {
        '3'
    } else if d == 4 {
        '4'
    } else if d == 5 {
        '5'
    } else if d == 6 {
        '6'
    } else if d == 7 {
        '7'
    } else if d == 8 {
        '8'
    } else {
        '9'
    }
}

/// Appends the decimal numeral of `n` to `v`.
pub fn anexar_decimal(v: &mut Vec<char>, n: u64)
    ensures
        final(v)@ == old(v)@ + decimal(n as nat),
    decreases n,
{
    if n >= 10 {
        anexar_decimal(v, n / 10);
    }
    let c = digito_exec(n % 10);
    v.push(c);
    proof {
        if n >= 10 {
            assert(decimal(n as nat) == decimal((n / 10) as nat).push(digito((n % 10) as nat)));
        } else {
            assert(n % 10 == n);
        }
    }
    assert(v@ =~= old(v)@ + decimal(n as nat));
}

/// Appends `n` zero-padded to at least `ancho` digits.
pub fn anexar_decimal_relleno(v: &mut Vec<char>, n: u64, ancho: usize)
    ensures
        final(v)@ == old(v)@ + decimal_relleno(n as nat, ancho as nat),
{
    let mut d: Vec<char> = Vec::new();
    anexar_decimal(&mut d, n);
    assert(d@ == decimal(n as nat));
    if d.len() < ancho {
        let falta = ancho - d.len();
        let mut k: usize = 0;
        let ghost antes = v@;
        while k < falta
            invariant
                k <= falta,
                v@ == antes + Seq::new(k as nat, |i: int| '0'),
            decreases falta - k,
        {
            v.push('0');
            assert(Seq::new((k + 1) as nat, |i: int| '0') =~= Seq::new(k as nat, |i: int| '0').push(
                '0',
            ));
            k = k + 1;
        }
        anexar(v, &d);
        assert(v@ =~= antes + decimal_relleno(n as nat, ancho as nat));
    } else {
        anexar(v, &d);
    }
}

/// The numeral of a signed integer, as `Display` writes it.
pub open spec fn decimal_con_signo(n: int) -> Seq<char> {
    if n < 0 {
        seq!['-'] + decimal((-n) as nat)
    } else {
        decimal(n as nat)
    }
}

/// Appends the numeral of a signed integer to `v`.
pub fn anexar_entero(v: &mut Vec<char>, n: i64)
    ensures
        final(v)@ == old(v)@ + decimal_con_signo(n as int),
{
    if n < 0 {
        v.push('-');
        let m: u64 = if n == i64::MIN {
            9223372036854775808u64
        } else {
            (-n) as u64
        };
        let ghost antes = v@;
        anexar_decimal(v, m);
        assert(v@ =~= old(v)@ + decimal_con_signo(n as int));
    } else {
        anexar_decimal(v, n as u64);
    }
}

// ─── Parsing numbers ─────────────────────────────────────────────────────────

/// An ASCII decimal digit (`char::is_ascii_digit`).
pub open spec fn es_digito(c: char) -> bool {
    '0' <= c <= '9'
}

/// The value of a digit character.
pub open spec fn valor_digito(c: char) -> nat {
    (c as u32 - '0' as u32) as nat
}

/// The value of a string of decimal digits.
pub open spec fn valor_decimal(s: Seq<char>) -> nat
    decreases s.len(),
{
    if s.len() == 0 {
        0
    } else {
        valor_decimal(s.drop_last()) * 10 + valor_digito(s.last())
    }
}

/// All characters are ASCII digits.
pub open spec fn todos_digitos(s: Seq<char>) -> bool {
    forall|i: int| 0 <= i < s.len() ==> es_digito(#[trigger] s[i])
}

/// A non-empty string of digits whose value is at most `max`.
pub open spec fn analizar_digitos(d: Seq<char>, max: nat) -> Option<nat> {
    if d.len() == 0 || !todos_digitos(d) || valor_decimal(d) > max {
        None
    } else {
        Some(valor_decimal(d))
    }
}

/// What `str::parse` gives for an unsigned type whose maximum is `max`: an
/// optional `+` and then digits, the value not above `max`.
pub open spec fn analizar_natural(s: Seq<char>, max: nat) -> Option<nat> {
    if s.len() > 0 && s[0] == '+' {
        analizar_digitos(s.drop_first(), max)
    } else {
        analizar_digitos(s, max)
    }
}

/// What `str::parse::<i64>` gives: an optional sign and then digits, the
/// value within the range of `i64`.
pub open spec fn analizar_entero(s: Seq<char>) -> Option<int> {
    if s.len() > 0 && s[0] == '-' {
        match analizar_digitos(s.drop_first(), 9223372036854775808) {
            Some(v) => Some(-(v as int)),
            None => None,
        }
    } else {
        match analizar_natural(s, 9223372036854775807) {
            Some(v) => Some(v as int),
            None => None,
        }
    }
}

/// A digit string extended by digits is worth at least as much.
proof fn lema_valor_creciente(s: Seq<char>, k: int)
    requires
        0 <= k <= s.len(),
        todos_digitos(s),
    ensures
        valor_decimal(s.take(k)) <= valor_decimal(s),
    decreases s.len() - k,
{
    if k < s.len() {
        lema_valor_creciente(s, k + 1);
        assert(s.take(k + 1).drop_last() == s.take(k));
        assert(valor_decimal(s.take(k + 1)) == valor_decimal(s.take(k)) * 10 + valor_digito(
            s.take(k + 1).last(),
        ));
    } else {
        assert(s.take(k) == s);
    }
}

/// The value of the digits `d[..]`, if they are a non-empty digit string
/// worth at most `u64::MAX`.
fn valor_de_digitos(d: &Vec<char>, desde: usize) -> (r: Option<u64>)
    requires
        desde <= d.len(),
    ensures
        r matches Some(v) ==> analizar_digitos(d@.skip(desde as int), 18446744073709551615)
            == Some(v as nat),
        r is None ==> analizar_digitos(d@.skip(desde as int), 18446744073709551615) is None,
{
    let ghost s = d@.skip(desde as int);
    if desde == d.len() {
        return None;
    }
    let mut acc: u64 = 0;
    let mut i: usize = desde;
    while i < d.len()
        invariant
            desde <= i <= d.len(),
            s == d@.skip(desde as int),
            todos_digitos(s.take(i - desde)),
            acc as nat == valor_decimal(s.take(i - desde)),
        decreases d.len() - i,
    {
        let c = d[i];
        let ghost pre = s.take(i - desde + 1);
        assert(pre.drop_last() == s.take(i - desde));
        assert(pre.last() == c);
        if !('0' <= c && c <= '9') {
            assert(!es_digito(s[i - desde]));
            return None;
        }
        let dig = (c as u32 - '0' as u32) as u64;
        if acc > (18446744073709551615u64 - dig) / 10 {
            proof {
                assert(valor_decimal(pre) > 18446744073709551615) by (nonlinear_arith)
                    requires
                        valor_decimal(pre) == acc * 10 + dig,
                        acc > (18446744073709551615u64 - dig) / 10,
                        dig <= 9,
                ;
                if todos_digitos(s) {
                    lema_valor_creciente(s, i - desde + 1);
                }
            }
            return None;
        }
        acc = acc * 10 + dig;
        i = i + 1;
    }
    assert(s.take(d.len() - desde) == s);
    Some(acc)
}

/// `str::parse::<u64>`.
pub fn analizar_u64(s: &str) -> (r: Option<u64>)
    ensures
        r matches Some(v) ==> analizar_natural(s@, 18446744073709551615) == Some(v as nat),
        r is None ==> analizar_natural(s@, 18446744073709551615) is None,
{
    let d = caracteres(s);
    if d.len() > 0 && d[0] == '+' {
        assert(d@.skip(1) == d@.drop_first());
        valor_de_digitos(&d, 1)
    } else {
        assert(d@.skip(0) == d@);
        valor_de_digitos(&d, 0)
    }
}

/// `str::parse::<u32>`.
pub fn analizar_u32(s: &str) -> (r: Option<u32>)
    ensures
        r matches Some(v) ==> analizar_natural(s@, 4294967295) == Some(v as nat),
        r is None ==> analizar_natural(s@, 4294967295) is None,
{
    match analizar_u64(s) {
        Some(v) => {
            if v <= 4294967295 {
                Some(v as u32)
            } else {
                None
            }
        },
        None => None,
    }
}

/// `str::parse::<i64>`.
pub fn analizar_i64(s: &str) -> (r: Option<i64>)
    ensures
        r matches Some(v) ==> analizar_entero(s@) == Some(v as int),
        r is None ==> analizar_entero(s@) is None,
{
    let d = caracteres(s);
    if d.len() > 0 && d[0] == '-' {
        assert(d@.skip(1) == d@.drop_first());
        match valor_de_digitos(&d, 1) {
            Some(v) => {
                if v <= 9223372036854775807 {
                    Some(-(v as i64))
                } else if v == 9223372036854775808 {
                    Some(i64::MIN)
                } else {
                    None
                }
            },
            None => None,
        }
    } else {
        let r = if d.len() > 0 && d[0] == '+' {
            assert(d@.skip(1) == d@.drop_first());
            valor_de_digitos(&d, 1)
        } else {
            assert(d@.skip(0) == d@);
            valor_de_digitos(&d, 0)
        };
        match r {
            Some(v) => {
                if v <= 9223372036854775807 {
                    Some(v as i64)
                } else {
                    None
                }
            },
            None => None,
        }
    }
}

// ─── Digits only ─────────────────────────────────────────────────────────────

/// The ASCII digits of `s`, in order.
pub open spec fn solo_digitos(s: Seq<char>) -> Seq<char>
    decreases s.len(),
{
    if s.len() == 0 {
        s
    } else if es_digito(s.last()) {
        solo_digitos(s.drop_last()).push(s.last())
    } else {
        solo_digitos(s.drop_last())
    }
}

/// Keeps the ASCII digits of a text.
pub fn digitos_de(v: &Vec<char>) -> (r: Vec<char>)
    ensures
        r@ == solo_digitos(v@),
{
    let mut r: Vec<char> = Vec::new();
    let mut i: usize = 0;
    while i < v.len()
        invariant
            i <= v.len(),
            r@ == solo_digitos(v@.take(i as int)),
        decreases v.len() - i,
    {
        assert(v@.take(i + 1).drop_last() == v@.take(i as int));
        if '0' <= v[i] && v[i] <= '9' {
            r.push(v[i]);
        }
        i = i + 1;
    }
    assert(v@.take(v.len() as int) == v@);
    r
}

// ─── Searching ───────────────────────────────────────────────────────────────

/// `a` occurs in `s` starting at position `i`.
pub open spec fn aparece_en(s: Seq<char>, a: Seq<char>, i: int) -> bool {
    0 <= i && i + a.len() <= s.len() && s.subrange(i, i + a.len()) == a
}

/// `str::contains`: `a` occurs somewhere in `s`.
pub open spec fn contiene(s: Seq<char>, a: Seq<char>) -> bool {
    exists|i: int| aparece_en(s, a, i)
}

/// Whether `a` occurs in `s` at position `i`.
fn aparece_en_exec(s: &Vec<char>, a: &Vec<char>, i: usize) -> (r: bool)
    requires
        i + a.len() <= s.len(),
    ensures
        r == aparece_en(s@, a@, i as int),
{
    let mut k: usize = 0;
    while k < a.len()
        invariant
            i + a.len() <= s.len(),
            k <= a.len(),
            forall|j: int| 0 <= j < k ==> s@[i + j] == a@[j],
        decreases a.len() - k,
    {
        if s[i + k] != a[k] {
            assert(s@.subrange(i as int, i + a.len())[k as int] != a@[k as int]);
            return false;
        }
        k = k + 1;
    }
    assert(s@.subrange(i as int, i + a.len()) =~= a@);
    true
}

/// `str::contains` on character vectors.
pub fn contiene_exec(s: &Vec<char>, a: &Vec<char>) -> (r: bool)
    ensures
        r == contiene(s@, a@),
{
    if a.len() > s.len() {
        assert forall|i: int| !aparece_en(s@, a@, i) by {}
        return false;
    }
    let ultimo = s.len() - a.len();
    let mut i: usize = 0;
    loop
        invariant
            a.len() <= s.len(),
            ultimo == s.len() - a.len(),
            i <= ultimo,
            forall|j: int| 0 <= j < i ==> !aparece_en(s@, a@, j),
        ensures
            forall|j: int| 0 <= j <= ultimo ==> !aparece_en(s@, a@, j),
        decreases ultimo - i,
    {
        if aparece_en_exec(s, a, i) {
            return true;
        }
        if i == ultimo {
            break;
        }
        i = i + 1;
    }
    assert forall|j: int| !aparece_en(s@, a@, j) by {
        if 0 <= j <= ultimo {
        }
    }
    false
}

/// `str::contains` with a text to look for.
pub fn contiene_str(s: &Vec<char>, a: &str) -> (r: bool)
    ensures
        r == contiene(s@, a@),
{
    let w = caracteres(a);
    contiene_exec(s, &w)
}

// ─── Joining ─────────────────────────────────────────────────────────────────

/// `[String]::join`: the parts with `sep` between each two of them.
pub open spec fn unir(partes: Seq<Seq<char>>, sep: Seq<char>) -> Seq<char>
    decreases partes.len(),
{
    if partes.len() == 0 {
        Seq::empty()
    } else if partes.len() == 1 {
        partes[0]
    } else {
        unir(partes.drop_last(), sep) + sep + partes.last()
    }
}

/// Joins texts with a separator.
pub fn unir_textos(partes: &Vec<String>, sep: &str) -> (r: String)
    ensures
        r@ == unir(partes@.map_values(|p: String| p@), sep@),
{
    let ghost vistas = partes@.map_values(|p: String| p@);
    let mut v: Vec<char> = Vec::new();
    let mut i: usize = 0;
    while i < partes.len()
        invariant
            i <= partes.len(),
            vistas == partes@.map_values(|p: String| p@),
            v@ == unir(vistas.take(i as int), sep@),
        decreases partes.len() - i,
    {
        let ghost pre = vistas.take(i + 1);
        assert(pre.drop_last() == vistas.take(i as int));
        assert(pre.last() == partes@[i as int]@);
        if i > 0 {
            anexar_str(&mut v, sep);
        } else {
            assert(vistas.take(0) =~= Seq::<Seq<char>>::empty());
        }
        anexar_str(&mut v, partes[i].as_str());
        if i == 0 {
            assert(v@ =~= unir(pre, sep@));
        }
        i = i + 1;
    }
    assert(vistas.take(partes.len() as int) == vistas);
    texto_de(&v)
}

/// The texts of a list of strings.
pub open spec fn vistas(s: Seq<String>) -> Seq<Seq<char>> {
    s.map_values(|x: String| x@)
}

// ─── Prefixes, suffixes, positions ───────────────────────────────────────────

/// `str::starts_with`.
pub open spec fn empieza_con(s: Seq<char>, p: Seq<char>) -> bool {
    p.len() <= s.len() && s.take(p.len() as int) == p
}

/// `str::ends_with`.
pub open spec fn termina_en(s: Seq<char>, p: Seq<char>) -> bool {
    p.len() <= s.len() && s.skip(s.len() - p.len()) == p
}

/// `str::starts_with` on a character vector.
pub fn empieza_con_str(v: &Vec<char>, p: &str) -> (r: bool)
    ensures
        r == empieza_con(v@, p@),
{
    let w = caracteres(p);
    if w.len() > v.len() {
        return false;
    }
    let t = tramo(v, 0, w.len());
    iguales(&t, &w)
}

/// `str::ends_with` on a character vector.
pub fn termina_en_str(v: &Vec<char>, p: &str) -> (r: bool)
    ensures
        r == termina_en(v@, p@),
{
    let w = caracteres(p);
    if w.len() > v.len() {
        return false;
    }
    let t = tramo(v, v.len() - w.len(), v.len());
    assert(t@ == v@.skip(v@.len() - w@.len()));
    iguales(&t, &w)
}

/// Position of the last `c` in `s`, if any.
pub open spec fn ultima_posicion(s: Seq<char>, c: char) -> Option<nat>
    decreases s.len(),
{
    if s.len() == 0 {
        None
    } else if s.last() == c {
        Some((s.len() - 1) as nat)
    } else {
        ultima_posicion(s.drop_last(), c)
    }
}

/// Position of the last `c` in `v`, if any.
pub fn ultima_posicion_exec(v: &Vec<char>, c: char) -> (r: Option<usize>)
    ensures
        match r {
            Some(k) => ultima_posicion(v@, c) == Some(k as nat) && k < v@.len(),
            None => ultima_posicion(v@, c) is None,
        },
{
    let mut i: usize = v.len();
    assert(v@.take(v@.len() as int) == v@);
    while i > 0
        invariant
            i <= v@.len(),
            ultima_posicion(v@, c) == ultima_posicion(v@.take(i as int), c),
        decreases i,
    {
        let ghost t = v@.take(i as int);
        assert(t.last() == v@[i - 1]);
        assert(t.drop_last() == v@.take(i - 1));
        if v[i - 1] == c {
            return Some(i - 1);
        }
        i = i - 1;
    }
    None
}

/// `s` with every `c` replaced by `por`.
pub open spec fn reemplazar_caracter(s: Seq<char>, c: char, por: Seq<char>) -> Seq<char>
    decreases s.len(),
{
    if s.len() == 0 {
        s
    } else if s.last() == c {
        reemplazar_caracter(s.drop_last(), c, por) + por
    } else {
        reemplazar_caracter(s.drop_last(), c, por).push(s.last())
    }
}

/// `str::replace` of one character by a text.
pub fn reemplazar_caracter_exec(s: &Vec<char>, c: char, por: &str) -> (r: Vec<char>)
    ensures
        r@ == reemplazar_caracter(s@, c, por@),
{
    let w = caracteres(por);
    let mut r: Vec<char> = Vec::new();
    let mut i: usize = 0;
    while i < s.len()
        invariant
            i <= s@.len(),
            w@ == por@,
            r@ == reemplazar_caracter(s@.take(i as int), c, por@),
        decreases s@.len() - i,
    {
        assert(s@.take(i + 1).drop_last() == s@.take(i as int));
        assert(s@.take(i + 1).last() == s@[i as int]);
        if s[i] == c {
            anexar(&mut r, &w);
        } else {
            r.push(s[i]);
        }
        i = i + 1;
    }
    assert(s@.take(s@.len() as int) == s@);
    r
}

} // verus!
