"""Derives the integer sRGB linearisation table used by `src/color.rs` and
checks, over all 2^24 colours, that the integer contrast test agrees with the
IEEE-754 double computation of the WCAG 2.x contrast ratio against white.

    lin(c)      = c/255/12.92                      if c/255 <= 0.04045
                = ((c/255 + 0.055) / 1.055) ** 2.4 otherwise
    L           = 0.2126 lin(r) + 0.7152 lin(g) + 0.0722 lin(b)
    passes      = (1.0 + 0.05) / (L + 0.05) >= 4.5

Integer form: LIN[c] = round(lin(c) * 1e8) and
    passes  <=>  60 * (2126 LIN[r] + 7152 LIN[g] + 722 LIN[b]) <= 11 * 10^12
i.e. luminance at most 11/60, the exact bound for a 4.5:1 ratio.
"""

def linear(c):
    s = c / 255.0
    if s <= 0.04045:
        return s / 12.92
    return ((s + 0.055) / 1.055) ** 2.4

LIN = [round(linear(c) * 10**8) for c in range(256)]

def main():
    lin = [linear(c) for c in range(256)]
    wa = [0.2126 * x for x in lin]
    wb = [0.7152 * x for x in lin]
    wc = [0.0722 * x for x in lin]
    ia = [2126 * t for t in LIN]
    ib = [7152 * t for t in LIN]
    ic = [722 * t for t in LIN]
    bound = 11 * 10**12
    for r in range(256):
        for g in range(256):
            fs = wa[r] + wb[g]
            is_ = ia[r] + ib[g]
            for b in range(256):
                fl = (1.0 + 0.05) / (fs + wc[b] + 0.05) >= 4.5
                il = 60 * (is_ + ic[b]) <= bound
                assert fl == il, (r, g, b)
    print("table:", LIN)
    print("integer and floating-point tests agree on all 16777216 colours")

if __name__ == "__main__":
    main()
