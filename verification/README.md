# rf_calc

An RF engineering calculator: frequency/wavelength conversion in a medium,
two-port matrix conversion (ABCD, Z, Y, S), inductor/capacitor reactance, and
microstrip line impedance.

- `src/` is the verified library (Verus):
  - `units`: unit tables held as exact decimals;
  - `matrix`: matrix kinds, conversion planning and its failure messages;
  - `text`: trimming of printed numerals and message texts;
  - `numeral`, `fields`: the reading of number fields as `str::parse::<f64>`
    reads them (for texts of fewer than 2^31 characters), with how the double
    compares with 0 and 1;
  - `wavelength`, `matrix`, `reactance`, `microstrip`: the field checks, form
    updates and status lines of every calculator action.
- `app/` is the front end: the floating-point physics (complex matrix algebra,
  Hammerstad-Jensen formulas, number printing) and a command-line driver for
  the calculator actions.
- `tests/` exercises the library.
