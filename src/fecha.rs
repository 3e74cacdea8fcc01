use vstd::prelude::*;

verus! {

/// Seconds by which local time runs behind UTC (local time is UTC-3).
pub const DESFASE_SEGUNDOS: i64 = 10800;

/// Seconds from the start of year zero to 1 January 1970 in this calendar.
pub const SEGUNDOS_HASTA_1970: u64 = 62168515200;

/// Leap years of this calendar: every fourth year, with no century rule.
pub open spec fn es_bisiesto_spec(year: int) -> bool {
    year % 4 == 0
}

/// Number of days of `month` in `year`; zero when `month` is not a month.
pub open spec fn dias_del_mes(year: int, month: int) -> int {
    if month == 2 {
        if es_bisiesto_spec(year) {
            29
        } else {
            28
        }
    } else if month == 4 || month == 6 || month == 9 || month == 11 {
        30
    } else if 1 <= month <= 12 {
        31
    } else {
        0
    }
}

/// Days from the start of year zero to the start of `year`.
pub open spec fn dias_antes_del_anio(year: int) -> int {
    365 * year + (year + 3) / 4
}

/// Days from the start of `year` to the start of `month`.
pub open spec fn dias_antes_del_mes(year: int, month: int) -> int {
    let l: int = if es_bisiesto_spec(year) {
        1
    } else {
        0
    };
    if month <= 1 {
        0
    } else if month == 2 {
        31
    } else if month == 3 {
        59 + l
    } else if month == 4 {
        90 + l
    } else if month == 5 {
        120 + l
    } else if month == 6 {
        151 + l
    } else if month == 7 {
        181 + l
    } else if month == 8 {
        212 + l
    } else if month == 9 {
        243 + l
    } else if month == 10 {
        273 + l
    } else if month == 11 {
        304 + l
    } else {
        334 + l
    }
}

/// Whole years are ordered like their first days.
pub proof fn lemma_dias_antes_del_anio_monotona(a: int, b: int)
    requires
        a <= b,
    ensures
        dias_antes_del_anio(a) <= dias_antes_del_anio(b),
        a < b ==> dias_antes_del_anio(a) + 365 <= dias_antes_del_anio(b),
{
    vstd::arithmetic::div_mod::lemma_div_is_ordered(a + 3, b + 3, 4);
}

/// The year after `year` starts as many days later as `year` has.
pub proof fn lemma_largo_del_anio(year: int)
    ensures
        dias_antes_del_anio(year + 1) == dias_antes_del_anio(year) + dias_antes_del_mes(year, 12) + 31,
{
    let q = (year + 3) / 4;
    let r = (year + 3) % 4;
    vstd::arithmetic::div_mod::lemma_fundamental_div_mod(year + 3, 4);
    vstd::arithmetic::div_mod::lemma_fundamental_div_mod(year + 4, 4);
    assert(0 <= r < 4);
    assert((year + 4) / 4 == if r == 3 { q + 1 } else { q }) by {
        vstd::arithmetic::div_mod::lemma_fundamental_div_mod_converse(year + 4, 4, if r == 3 { q + 1 } else { q }, if r == 3 { 0 } else { r + 1 });
    }
    assert(year % 4 == 0 <==> r == 3) by {
        vstd::arithmetic::div_mod::lemma_fundamental_div_mod(year, 4);
        vstd::arithmetic::div_mod::lemma_fundamental_div_mod_converse(year, 4, if r == 3 { q } else { q - 1 }, if r == 3 { 0 } else { r + 1 });
    }
}

/// A valid day lies within its year.
pub proof fn lemma_dia_dentro_del_anio(f: Fecha)
    requires
        f.dia_valido(),
    ensures
        dias_antes_del_anio(f.year as int) <= f.numero_de_dia(),
        f.numero_de_dia() < dias_antes_del_anio(f.year as int + 1),
{
    lemma_largo_del_anio(f.year as int);
}

/// Four consecutive years start 1461 days apart; the first of them is a
/// leap year and the other three are not.
pub proof fn lemma_dias_antes_del_anio_ciclo(c: int)
    requires
        c >= 0,
    ensures
        dias_antes_del_anio(4 * c) == 1461 * c,
        dias_antes_del_anio(4 * c + 1) == 1461 * c + 366,
        dias_antes_del_anio(4 * c + 2) == 1461 * c + 731,
        dias_antes_del_anio(4 * c + 3) == 1461 * c + 1096,
        es_bisiesto_spec(4 * c),
        !es_bisiesto_spec(4 * c + 1),
        !es_bisiesto_spec(4 * c + 2),
        !es_bisiesto_spec(4 * c + 3),
{
    vstd::arithmetic::div_mod::lemma_fundamental_div_mod_converse(4 * c + 3, 4, c, 3);
    vstd::arithmetic::div_mod::lemma_fundamental_div_mod_converse(4 * c + 4, 4, c + 1, 0);
    vstd::arithmetic::div_mod::lemma_fundamental_div_mod_converse(4 * c + 5, 4, c + 1, 1);
    vstd::arithmetic::div_mod::lemma_fundamental_div_mod_converse(4 * c + 6, 4, c + 1, 2);
    vstd::arithmetic::div_mod::lemma_fundamental_div_mod_converse(4 * c, 4, c, 0);
    vstd::arithmetic::div_mod::lemma_fundamental_div_mod_converse(4 * c + 1, 4, c, 1);
    vstd::arithmetic::div_mod::lemma_fundamental_div_mod_converse(4 * c + 2, 4, c, 2);
    vstd::arithmetic::div_mod::lemma_fundamental_div_mod_converse(4 * c + 3, 4, c, 3);
}

/// Earlier months of a year end no later than later months start.
proof fn lemma_meses_ordenados(year: int, m1: int, m2: int)
    requires
        1 <= m1 < m2 <= 12,
    ensures
        dias_antes_del_mes(year, m1) + dias_del_mes(year, m1) <= dias_antes_del_mes(year, m2),
{
}

/// Among valid dates the calendar order is the order of their second
/// counts: a later moment has more seconds, so its timestamp is larger.
pub proof fn lemma_orden_y_segundos(a: Fecha, b: Fecha)
    requires
        a.valida(),
        b.valida(),
        a.posterior_a(b),
    ensures
        a.segundos() > b.segundos(),
        a.segundos_unix() > b.segundos_unix(),
{
    lemma_dia_dentro_del_anio(a);
    lemma_dia_dentro_del_anio(b);
    if a.year > b.year {
        lemma_dias_antes_del_anio_monotona(b.year + 1, a.year as int);
    } else if a.year == b.year && a.month > b.month {
        lemma_meses_ordenados(a.year as int, b.month as int, a.month as int);
    }
}

/// Distinct valid dates have distinct second counts, so a valid date is
/// determined by its count (and `from_timestamp` by its contract).
pub proof fn lemma_segundos_inyectiva(a: Fecha, b: Fecha)
    requires
        a.valida(),
        b.valida(),
        a.segundos() == b.segundos(),
    ensures
        a == b,
{
    if a.posterior_a(b) {
        lemma_orden_y_segundos(a, b);
    } else if b.posterior_a(a) {
        lemma_orden_y_segundos(b, a);
    }
}

/// Converting a timestamp to a date and back gives the timestamp rounded
/// down to whole seconds; converting a valid date with a timestamp to its
/// timestamp and back gives the date.
pub proof fn lemma_ida_y_vuelta(f: Fecha, g: Fecha, ms: u64)
    ensures
        g.valida() && g.segundos_unix() == ms / 1000 ==> g.marca_ms() == Some(((ms / 1000) * 1000) as u64),
        f.marca_ms() is Some && g.valida() && g.segundos_unix() == f.marca_ms()->0 / 1000 ==> g == f,
{
    if f.marca_ms() is Some && g.valida() && g.segundos_unix() == f.marca_ms()->0 / 1000 {
        assert(f.marca_ms()->0 / 1000 == f.segundos_unix());
        lemma_segundos_inyectiva(f, g);
    }
}

/// A calendar date with a time of day, in local time.
///
/// A `Fecha` can be built from any fields; `es_fecha_valida` tells whether it
/// names a real moment, and callers check it before relying on the date.
#[derive(Debug, Clone, Copy, PartialEq, Eq, Structural, Default)]
pub struct Fecha {
    pub day: u32,
    pub month: u32,
    pub year: i32,
    pub hour: u32,
    pub minute: u32,
    pub second: u32,
}

impl Fecha {
    /// The day part names a day of this calendar.
    pub open spec fn dia_valido(self) -> bool {
        1 <= self.month <= 12 && 1 <= self.day <= dias_del_mes(self.year as int, self.month as int)
    }

    /// The whole value names a moment: a valid day and a time of day.
    pub open spec fn valida(self) -> bool {
        self.dia_valido() && self.hour < 24 && self.minute < 60 && self.second < 60
    }

    /// Position of the day in this calendar, counted from the first day of year zero.
    pub open spec fn numero_de_dia(self) -> int {
        dias_antes_del_anio(self.year as int) + dias_antes_del_mes(self.year as int, self.month as int)
            + self.day - 1
    }

    /// `self` comes strictly after `other`: lexicographic on
    /// (year, month, day, hour, minute, second).
    pub open spec fn posterior_a(self, other: Fecha) -> bool {
        ||| self.year > other.year
        ||| self.year == other.year && self.month > other.month
        ||| self.year == other.year && self.month == other.month && self.day > other.day
        ||| self.year == other.year && self.month == other.month && self.day == other.day
            && self.hour > other.hour
        ||| self.year == other.year && self.month == other.month && self.day == other.day
            && self.hour == other.hour && self.minute > other.minute
        ||| self.year == other.year && self.month == other.month && self.day == other.day
            && self.hour == other.hour && self.minute == other.minute && self.second
            > other.second
    }

    /// Seconds from the start of year zero to this moment.
    pub open spec fn segundos(self) -> int {
        self.numero_de_dia() * 86400 + self.hour * 3600 + self.minute * 60 + self.second
    }

    /// Seconds since the Unix epoch of this local date and time.
    pub open spec fn segundos_unix(self) -> int {
        self.segundos() - SEGUNDOS_HASTA_1970 + DESFASE_SEGUNDOS
    }

    /// Milliseconds since the Unix epoch of this local date and time, when it
    /// is valid and the count is neither negative nor beyond a `u64`.
    pub open spec fn marca_ms(self) -> Option<u64> {
        if self.valida() && 0 <= self.segundos_unix() && self.segundos_unix() * 1000 <= u64::MAX {
            Some((self.segundos_unix() * 1000) as u64)
        } else {
            None
        }
    }

    /// A date at midnight.
    pub fn new(day: u32, month: u32, year: i32) -> (r: Fecha)
        ensures
            r == (Fecha { day, month, year, hour: 0, minute: 0, second: 0 }),
    {
        Fecha::new_with_time(day, month, year, 0, 0, 0)
    }

    /// A date with a time of day.
    pub fn new_with_time(day: u32, month: u32, year: i32, hour: u32, minute: u32, second: u32) -> (r:
        Fecha)
        ensures
            r == (Fecha { day, month, year, hour, minute, second }),
    {
        Fecha { day, month, year, hour, minute, second }
    }

    /// The local date and time of a timestamp in milliseconds since the Unix
    /// epoch (sub-second milliseconds are dropped).
    pub fn from_timestamp(timestamp: u64) -> (r: Fecha)
        ensures
            r.valida(),
            r.segundos_unix() == timestamp / 1000,
    {
        // seconds since local midnight opening 31 December 1969
        let desde: u64 = timestamp / 1000 + 86400 - DESFASE_SEGUNDOS as u64;
        let resto = desde % 86400;
        let n: u64 = desde / 86400 + 719542;
        let ciclo = n / 1461;
        let r = n % 1461;
        let year: u64;
        let mut dia_del_anio: u64;
        if r < 366 {
            year = 4 * ciclo;
            dia_del_anio = r;
        } else {
            year = 4 * ciclo + 1 + (r - 366) / 365;
            dia_del_anio = (r - 366) % 365;
        }
        proof {
            assert(desde == 86400 * (desde / 86400) + resto);
            assert(n == 1461 * ciclo + r);
            assert(ciclo <= 200_000_000);
            lemma_dias_antes_del_anio_ciclo(ciclo as int);
            assert(dias_antes_del_anio(year as int) + dia_del_anio == n);
            assert(dia_del_anio < dias_antes_del_mes(year as int, 12) + 31);
        }
        let ghost doy = dia_del_anio;
        let year = year as i32;
        let mut month: u32 = 1;
        let hora = (resto / 3600) as u32;
        let minuto = (resto % 3600 / 60) as u32;
        let segundo = (resto % 3600 % 60) as u32;
        proof {
            assert(resto == 3600 * (resto / 3600) + resto % 3600);
            assert(resto % 3600 == 60 * (resto % 3600 / 60) + resto % 3600 % 60);
        }
        let mut fecha = Fecha::new_with_time(1, 1, year, hora, minuto, segundo);
        while dia_del_anio >= fecha.obtener_dias_para_mes() as u64
            invariant
                1 <= month <= 12,
                fecha.month == month,
                fecha.year == year,
                fecha.hour == hora && fecha.minute == minuto && fecha.second == segundo,
                hora < 24 && minuto < 60 && segundo < 60,
                dia_del_anio + dias_antes_del_mes(year as int, month as int) == doy,
                doy < dias_antes_del_mes(year as int, 12) + 31,
            decreases 12 - month,
        {
            dia_del_anio = dia_del_anio - fecha.obtener_dias_para_mes() as u64;
            month = month + 1;
            fecha.month = month;
        }
        fecha.day = (dia_del_anio + 1) as u32;
        proof {
            assert(fecha.numero_de_dia() == n);
            assert(fecha.hour * 3600 + fecha.minute * 60 + fecha.second == resto);
        }
        fecha
    }

    /// Milliseconds since the Unix epoch of this local date and time; `None`
    /// when the date is not valid or the count is negative or beyond a `u64`.
    pub fn timestamp(&self) -> (r: Option<u64>)
        ensures
            r == self.marca_ms(),
    {
        if !self.es_fecha_valida() {
            return None;
        }
        if self.year < 1969 {
            proof {
                lemma_dia_dentro_del_anio(*self);
                lemma_dias_antes_del_anio_monotona(self.year + 1, 1969);
            }
            return None;
        }
        let year = self.year as u64;
        let dias: u64 = 365 * year + (year + 3) / 4 + self.dias_antes_del_mes_actual() + self.day as u64 - 1;
        let segundos: u64 = dias * 86400 + self.hour as u64 * 3600 + self.minute as u64 * 60 + self.second as u64;
        if segundos + (DESFASE_SEGUNDOS as u64) < SEGUNDOS_HASTA_1970 {
            return None;
        }
        let unix = segundos + DESFASE_SEGUNDOS as u64 - SEGUNDOS_HASTA_1970;
        if unix > u64::MAX / 1000 {
            None
        } else {
            Some(unix * 1000)
        }
    }

    /// Days from the start of the year to the start of the current month.
    fn dias_antes_del_mes_actual(&self) -> (r: u64)
        ensures
            r == dias_antes_del_mes(self.year as int, self.month as int),
    {
        let l: u64 = if self.es_bisiesto() {
            1
        } else {
            0
        };
        if self.month <= 1 {
            0
        } else if self.month == 2 {
            31
        } else if self.month == 3 {
            59 + l
        } else if self.month == 4 {
            90 + l
        } else if self.month == 5 {
            120 + l
        } else if self.month == 6 {
            151 + l
        } else if self.month == 7 {
            181 + l
        } else if self.month == 8 {
            212 + l
        } else if self.month == 9 {
            243 + l
        } else if self.month == 10 {
            273 + l
        } else if self.month == 11 {
            304 + l
        } else {
            334 + l
        }
    }

    /// Whether the date is a day of this calendar and the time a time of day.
    pub fn es_fecha_valida(&self) -> (r: bool)
        ensures
            r == self.valida(),
    {
        1 <= self.month && self.month <= 12 && 1 <= self.day && self.day
            <= self.obtener_dias_para_mes() && self.hour < 24 && self.minute < 60 && self.second < 60
    }

    /// Whether the year is a leap year (every fourth year).
    pub fn es_bisiesto(&self) -> (r: bool)
        ensures
            r == es_bisiesto_spec(self.year as int),
    {
        self.year % 4 == 0
    }

    /// Days of the current month; zero when the month is out of range.
    pub fn obtener_dias_para_mes(&self) -> (r: u32)
        ensures
            r == dias_del_mes(self.year as int, self.month as int),
    {
        if self.month == 2 {
            if self.es_bisiesto() {
                29
            } else {
                28
            }
        } else if self.month == 4 || self.month == 6 || self.month == 9 || self.month == 11 {
            30
        } else if 1 <= self.month && self.month <= 12 {
            31
        } else {
            0
        }
    }

    /// Moves the date `dias` days forward; the time of day stays.
    pub fn sumar_dias(&mut self, dias: u32)
        requires
            old(self).dia_valido(),
            old(self).numero_de_dia() + dias < dias_antes_del_anio(i32::MAX as int + 1),
        ensures
            final(self).dia_valido(),
            final(self).numero_de_dia() == old(self).numero_de_dia() + dias,
            final(self).hour == old(self).hour,
            final(self).minute == old(self).minute,
            final(self).second == old(self).second,
    {
        let mut dias_restantes: u32 = dias;
        while dias_restantes > 0
            invariant
                self.dia_valido(),
                self.numero_de_dia() + dias_restantes == old(self).numero_de_dia() + dias,
                old(self).numero_de_dia() + dias < dias_antes_del_anio(i32::MAX as int + 1),
                self.hour == old(self).hour,
                self.minute == old(self).minute,
                self.second == old(self).second,
            decreases dias_restantes,
        {
            let dias_en_mes = self.obtener_dias_para_mes();
            let dias_hasta_fin_de_mes = dias_en_mes - self.day + 1;
            if dias_hasta_fin_de_mes > dias_restantes {
                self.day = self.day + dias_restantes;
                dias_restantes = 0;
            } else {
                dias_restantes = dias_restantes - dias_hasta_fin_de_mes;
                if self.month == 12 {
                    proof {
                        lemma_largo_del_anio(self.year as int);
                        if self.year >= i32::MAX {
                            lemma_dias_antes_del_anio_monotona(i32::MAX as int, self.year + 1);
                        }
                    }
                    self.month = 1;
                    self.year = self.year + 1;
                } else {
                    self.month = self.month + 1;
                }
                self.day = 1;
            }
        }
    }

    /// Moves the date `dias` days back; the time of day stays.
    pub fn restar_dias(&mut self, dias: u32)
        requires
            old(self).dia_valido(),
            old(self).numero_de_dia() - dias >= dias_antes_del_anio(i32::MIN as int),
        ensures
            final(self).dia_valido(),
            final(self).numero_de_dia() == old(self).numero_de_dia() - dias,
            final(self).hour == old(self).hour,
            final(self).minute == old(self).minute,
            final(self).second == old(self).second,
    {
        let mut dias_restantes: u32 = dias;
        while dias_restantes > 0
            invariant
                self.dia_valido(),
                self.numero_de_dia() - dias_restantes == old(self).numero_de_dia() - dias,
                old(self).numero_de_dia() - dias >= dias_antes_del_anio(i32::MIN as int),
                self.hour == old(self).hour,
                self.minute == old(self).minute,
                self.second == old(self).second,
            decreases dias_restantes,
        {
            if self.day > dias_restantes {
                self.day = self.day - dias_restantes;
                dias_restantes = 0;
            } else {
                dias_restantes = dias_restantes - self.day;
                if self.month == 1 {
                    proof {
                        lemma_largo_del_anio(self.year - 1);
                        if self.year <= i32::MIN + 1 {
                            lemma_dias_antes_del_anio_monotona(self.year as int, i32::MIN as int + 1);
                        }
                    }
                    self.month = 12;
                    self.year = self.year - 1;
                } else {
                    self.month = self.month - 1;
                }
                self.day = self.obtener_dias_para_mes();
            }
        }
    }

    /// Whether `self` comes strictly after `una_fecha`, comparing the date and
    /// then the time of day.
    pub fn es_mayor(&self, una_fecha: &Fecha) -> (r: bool)
        ensures
            r == self.posterior_a(*una_fecha),
    {
        if self.year != una_fecha.year {
            return self.year > una_fecha.year;
        }
        if self.month != una_fecha.month {
            return self.month > una_fecha.month;
        }
        if self.day != una_fecha.day {
            return self.day > una_fecha.day;
        }
        if self.hour != una_fecha.hour {
            return self.hour > una_fecha.hour;
        }
        if self.minute != una_fecha.minute {
            return self.minute > una_fecha.minute;
        }
        self.second > una_fecha.second
    }
}

} // verus!
