use vstd::prelude::*;
use vstd::string::*;
use crate::text::str_eq;

verus! {

/// How many symbols the reels can show.
pub const SYMBOL_COUNT: usize = 7;

/// Reels per line.
pub const REELS: usize = 3;

/// The symbol at `index` of the reel strip: diamond, money bag, money face,
/// monkey, unamused face, black cat, thumbs down.
pub open spec fn slot_symbol_of(index: int) -> Seq<char> {
    if index == 0 {
        "\u{1f48e}"@
    } else if index == 1 {
        "\u{1f4b0}"@
    } else if index == 2 {
        "\u{1f911}"@
    } else if index == 3 {
        "\u{1f412}"@
    } else if index == 4 {
        "\u{1f612}"@
    } else if index == 5 {
        "\u{1f408}\u{200d}\u{2b1b}"@
    } else {
        "\u{1f44e}"@
    }
}

/// Whether `s` is one of the symbols of the reel strip.
pub open spec fn is_slot_symbol(s: Seq<char>) -> bool {
    exists|i: int| 0 <= i < SYMBOL_COUNT && s == slot_symbol_of(i)
}

/// The symbol at `index` of the reel strip.
pub fn slot_symbol(index: usize) -> (symbol: &'static str)
    requires
        index < SYMBOL_COUNT,
    ensures
        symbol@ == slot_symbol_of(index as int),
{
    match index {
        0 => "\u{1f48e}",
        1 => "\u{1f4b0}",
        2 => "\u{1f911}",
        3 => "\u{1f412}",
        4 => "\u{1f612}",
        5 => "\u{1f408}\u{200d}\u{2b1b}",
        _ => "\u{1f44e}",
    }
}

/// `rand::random_range(0..bound)`: an index drawn from `0..bound`.  Only the
/// range is claimed: the draw is random.
#[verifier::external_body]
fn random_below(bound: usize) -> (n: usize)
    requires
        bound > 0,
    ensures
        n < bound,
{
    rand::random_range(0..bound)
}

/// Reveals reel `col` of every line: each line gets a random symbol in that
/// position and keeps its other positions.
pub fn reveal_column(slots: &mut Vec<Vec<String>>, col: usize)
    requires
        forall|r: int| 0 <= r < old(slots)@.len() ==> col < (#[trigger] old(slots)@[r])@.len(),
    ensures
        final(slots)@.len() == old(slots)@.len(),
        forall|r: int|
            0 <= r < final(slots)@.len() ==> {
                &&& (#[trigger] final(slots)@[r])@.len() == old(slots)@[r]@.len()
                &&& is_slot_symbol(final(slots)@[r]@[col as int]@)
                &&& forall|c: int|
                    0 <= c < final(slots)@[r]@.len() && c != col ==> final(slots)@[r]@[c]
                        == old(slots)@[r]@[c]
            },
{
    let n = slots.len();
    let mut r: usize = 0;
    while r < n
        invariant
            n == slots@.len(),
            n == old(slots)@.len(),
            r <= n,
            forall|k: int| r <= k < n ==> #[trigger] slots@[k] == old(slots)@[k],
            forall|k: int| 0 <= k < n ==> col < (#[trigger] old(slots)@[k])@.len(),
            forall|k: int|
                0 <= k < r ==> {
                    &&& (#[trigger] slots@[k])@.len() == old(slots)@[k]@.len()
                    &&& is_slot_symbol(slots@[k]@[col as int]@)
                    &&& forall|c: int|
                        0 <= c < slots@[k]@.len() && c != col ==> slots@[k]@[c] == old(
                            slots,
                        )@[k]@[c]
                },
        decreases n - r,
    {
        let index = random_below(SYMBOL_COUNT);
        let symbol = slot_symbol(index);
        let mut row: Vec<String> = Vec::new();
        std::mem::swap(&mut row, &mut slots[r]);
        assert(row@ == old(slots)@[r as int]@);
        row.set(col, String::from_str(symbol));
        slots.set(r, row);
        r = r + 1;
    }
}

/// How many positions of `line` show the symbol `symbol`.
pub open spec fn count_symbol(line: Seq<Seq<char>>, symbol: Seq<char>) -> nat
    decreases line.len(),
{
    if line.len() == 0 {
        0
    } else {
        count_symbol(line.drop_last(), symbol) + if line.last() == symbol {
            1nat
        } else {
            0nat
        }
    }
}

/// The multiplier of a line, in hundredths, as the machine's payout table
/// shows it: three diamonds ×8, three money bags ×4, three money faces ×2;
/// otherwise, counting diamonds, money bags and money faces together, two or
/// three of them ×0.75, one ×0.20, none nothing.
pub open spec fn line_multiplier_percent(line: Seq<Seq<char>>) -> u32 {
    let diamonds = count_symbol(line, slot_symbol_of(0));
    let money = count_symbol(line, slot_symbol_of(1));
    let rich = count_symbol(line, slot_symbol_of(2));
    let winning = diamonds as u128 + money as u128 + rich as u128;
    if diamonds == 3 {
        800
    } else if money == 3 {
        400
    } else if rich == 3 {
        200
    } else if winning == 3 {
        75
    } else if winning == 2 {
        75
    } else if winning == 1 {
        20
    } else {
        0
    }
}

/// Counts the positions of `line` that show `symbol`.
fn count_in_line(line: &Vec<String>, symbol: &str) -> (count: u64)
    ensures
        count == count_symbol(line.deep_view(), symbol@),
        count <= line@.len(),
{
    let ghost view = line.deep_view();
    let n = line.len();
    let mut count: u64 = 0;
    let mut i: usize = 0;
    assert(view.take(0) =~= Seq::<Seq<char>>::empty());
    while i < n
        invariant
            view == line.deep_view(),
            n == view.len(),
            i <= n,
            count == count_symbol(view.take(i as int), symbol@),
            count <= i,
        decreases n - i,
    {
        assert(view.take(i + 1).drop_last() =~= view.take(i as int));
        assert(view[i as int] == line@[i as int]@);
        if str_eq(line[i].as_str(), symbol) {
            count = count + 1;
        }
        i = i + 1;
    }
    assert(view.take(n as int) =~= view);
    count
}

/// The multiplier of one line of the machine, in hundredths.
pub fn calculate_multiplier_percent(line: &Vec<String>) -> (percent: u32)
    ensures
        percent == line_multiplier_percent(line.deep_view()),
{
    let diamonds = count_in_line(line, slot_symbol(0));
    let money = count_in_line(line, slot_symbol(1));
    let rich = count_in_line(line, slot_symbol(2));
    let winning = diamonds as u128 + money as u128 + rich as u128;
    if diamonds == 3 {
        800
    } else if money == 3 {
        400
    } else if rich == 3 {
        200
    } else if winning == 3 {
        75
    } else if winning == 2 {
        75
    } else if winning == 1 {
        20
    } else {
        0
    }
}

/// Whether the line holds a diamond, a money bag or a money face.
pub open spec fn has_winning_symbol(line: Seq<Seq<char>>) -> bool {
    exists|i: int|
        0 <= i < line.len() && (#[trigger] line[i] == slot_symbol_of(0) || line[i] == slot_symbol_of(
            1,
        ) || line[i] == slot_symbol_of(2))
}

/// The rare quartet: exactly four lines, all alike, showing at least one
/// winning symbol.
pub open spec fn is_rare_quartet_of(slots: Seq<Seq<Seq<char>>>) -> bool {
    &&& slots.len() == 4
    &&& forall|r: int| 0 <= r < 4 ==> #[trigger] slots[r] == slots[0]
    &&& has_winning_symbol(slots[0])
}

/// Whether two lines show the same symbols.
fn same_line(a: &Vec<String>, b: &Vec<String>) -> (same: bool)
    ensures
        same == (a.deep_view() == b.deep_view()),
{
    if a.len() != b.len() {
        assert(a.deep_view().len() != b.deep_view().len());
        return false;
    }
    let mut i: usize = 0;
    while i < a.len()
        invariant
            a@.len() == b@.len(),
            i <= a@.len(),
            forall|k: int| 0 <= k < i ==> a@[k]@ == b@[k]@,
        decreases a@.len() - i,
    {
        if !str_eq(a[i].as_str(), b[i].as_str()) {
            assert(a.deep_view()[i as int] != b.deep_view()[i as int]);
            return false;
        }
        i = i + 1;
    }
    assert(a.deep_view() =~= b.deep_view());
    true
}

/// Whether the lines form the rare quartet.
pub fn is_rare_quartet(slots: &Vec<Vec<String>>) -> (quartet: bool)
    ensures
        quartet == is_rare_quartet_of(slots.deep_view()),
{
    let ghost view = slots.deep_view();
    if slots.len() != 4 {
        return false;
    }
    let first = &slots[0];
    let mut r: usize = 0;
    while r < 4
        invariant
            slots@.len() == 4,
            view == slots.deep_view(),
            *first == slots@[0],
            r <= 4,
            forall|k: int| 0 <= k < r ==> #[trigger] view[k] == view[0],
        decreases 4 - r,
    {
        assert(view[r as int] == slots@[r as int].deep_view());
        assert(view[0] == first.deep_view());
        if !same_line(&slots[r], first) {
            return false;
        }
        r = r + 1;
    }
    assert(view[0] == first.deep_view());
    let mut i: usize = 0;
    while i < first.len()
        invariant
            view == slots.deep_view(),
            slots@.len() == 4,
            *first == slots@[0],
            view[0] == first.deep_view(),
            forall|k: int| 0 <= k < 4 ==> #[trigger] view[k] == view[0],
            i <= first@.len(),
            forall|k: int| 0 <= k < i ==> !(#[trigger] view[0][k] == slot_symbol_of(0) || view[0][k]
                == slot_symbol_of(1) || view[0][k] == slot_symbol_of(2)),
        decreases first@.len() - i,
    {
        let cell = first[i].as_str();
        assert(view[0][i as int] == cell@);
        if str_eq(cell, slot_symbol(0)) || str_eq(cell, slot_symbol(1)) || str_eq(cell, slot_symbol(2)) {
            return true;
        }
        i = i + 1;
    }
    false
}

/// The rare-quartet bonus: `("Quarteto dos Amigos", 2 * total_aposta)` when
/// the lines form the rare quartet, nothing otherwise.  The doubling is
/// exact for stakes of magnitude up to 2^53.
pub fn rare_quartet_bonus(slots: &Vec<Vec<String>>, total_aposta: i64) -> (bonus: Option<(String, i64)>)
    requires
        -0x20_0000_0000_0000 <= total_aposta <= 0x20_0000_0000_0000,
    ensures
        bonus is Some <==> is_rare_quartet_of(slots.deep_view()),
        bonus matches Some((label, amount)) ==> label@ == "Quarteto dos Amigos"@ && amount == 2
            * total_aposta,
{
    if is_rare_quartet(slots) {
        Some((String::from_str("Quarteto dos Amigos"), total_aposta * 2))
    } else {
        None
    }
}

/// The text of one line of the machine.
pub open spec fn slot_row_text(line: Seq<Seq<char>>) -> Seq<char> {
    "│  "@ + line[0] + "  "@ + line[1] + "  "@ + line[2] + "  │"@
}

/// The first `k` lines of the machine, one per text line.
pub open spec fn slot_rows_text(slots: Seq<Seq<Seq<char>>>, k: int) -> Seq<char>
    decreases k,
{
    if k <= 0 {
        Seq::empty()
    } else if k == 1 {
        slot_row_text(slots[0])
    } else {
        slot_rows_text(slots, k - 1) + "\n"@ + slot_row_text(slots[k - 1])
    }
}

/// The boxed drawing of the machine.
pub open spec fn slots_table_of(slots: Seq<Seq<Seq<char>>>) -> Seq<char> {
    "```\n┌───────────────┐\n"@ + slot_rows_text(slots, slots.len() as int)
        + "\n└───────────────┘\n```"@
}

/// Draws the machine: one boxed text line per line of symbols.
pub fn render_slots_table(slots: &Vec<Vec<String>>) -> (table: String)
    requires
        forall|r: int| 0 <= r < slots@.len() ==> REELS <= (#[trigger] slots@[r])@.len(),
    ensures
        table@ == slots_table_of(slots.deep_view()),
{
    let ghost view = slots.deep_view();
    let mut table = String::from_str("```\n┌───────────────┐\n");
    let ghost head = table@;
    let mut r: usize = 0;
    while r < slots.len()
        invariant
            view == slots.deep_view(),
            forall|k: int| 0 <= k < slots@.len() ==> REELS <= (#[trigger] slots@[k])@.len(),
            r <= slots@.len(),
            head == "```\n┌───────────────┐\n"@,
            table@ == head + slot_rows_text(view, r as int),
        decreases slots@.len() - r,
    {
        let line = &slots[r];
        assert(view[r as int] == line.deep_view());
        if r > 0 {
            table.append("\n");
        }
        table.append("│  ");
        table.append(line[0].as_str());
        table.append("  ");
        table.append(line[1].as_str());
        table.append("  ");
        table.append(line[2].as_str());
        table.append("  │");
        assert(slot_row_text(view[r as int]) =~= "│  "@ + line@[0]@ + "  "@ + line@[1]@ + "  "@
            + line@[2]@ + "  │"@);
        r = r + 1;
    }
    table.append("\n└───────────────┘\n```");
    table
}

/// Why a slot-machine bet is refused.
#[derive(PartialEq, Eq, Structural, Clone, Copy, Debug)]
pub enum NiquelBetError {
    /// The number of lines is outside 1 to 10.
    InvalidLines,
    /// The stake per line is zero or negative.
    InvalidStake,
    /// The player has fewer coins than the total stake.
    InsufficientCoins,
}

/// The checks of a slot-machine bet, in order, and the total stake.
pub open spec fn niquel_bet_check(linhas: i64, aposta: i64, coins: i64) -> Result<i64, NiquelBetError> {
    if !(1 <= linhas <= 10) {
        Err(NiquelBetError::InvalidLines)
    } else if aposta <= 0 {
        Err(NiquelBetError::InvalidStake)
    } else if coins < linhas * aposta {
        Err(NiquelBetError::InsufficientCoins)
    } else {
        Ok((linhas * aposta) as i64)
    }
}

/// Checks a bet of `aposta` coins on each of `linhas` lines by a player
/// holding `coins`, and gives the total stake.
pub fn check_niquel_bet(linhas: i64, aposta: i64, coins: i64) -> (checked: Result<i64, NiquelBetError>)
    requires
        (1 <= linhas <= 10 && aposta > 0) ==> linhas * aposta <= i64::MAX,
    ensures
        checked == niquel_bet_check(linhas, aposta, coins),
        checked is Ok <==> (1 <= linhas <= 10 && aposta > 0 && coins >= linhas * aposta),
        checked matches Ok(total) ==> total == linhas * aposta,
        !(1 <= linhas <= 10) ==> checked == Err::<i64, NiquelBetError>(
            NiquelBetError::InvalidLines,
        ),
        (1 <= linhas <= 10 && aposta <= 0) ==> checked == Err::<i64, NiquelBetError>(
            NiquelBetError::InvalidStake,
        ),
        (1 <= linhas <= 10 && aposta > 0 && coins < linhas * aposta) ==> checked == Err::<
            i64,
            NiquelBetError,
        >(NiquelBetError::InsufficientCoins),
{
    if !(1 <= linhas && linhas <= 10) {
        return Err(NiquelBetError::InvalidLines);
    }
    if aposta <= 0 {
        return Err(NiquelBetError::InvalidStake);
    }
    let total = linhas * aposta;
    if coins < total {
        return Err(NiquelBetError::InsufficientCoins);
    }
    Ok(total)
}

/// The machine before it spins: `linhas` lines of three `?`.
pub fn blank_slots(linhas: usize) -> (slots: Vec<Vec<String>>)
    ensures
        slots@.len() == linhas,
        forall|r: int|
            0 <= r < linhas ==> (#[trigger] slots@[r])@.len() == REELS && forall|c: int|
                0 <= c < REELS ==> slots@[r]@[c]@ == "?"@,
{
    let mut slots: Vec<Vec<String>> = Vec::new();
    let mut r: usize = 0;
    while r < linhas
        invariant
            r <= linhas,
            slots@.len() == r,
            forall|k: int|
                0 <= k < r ==> (#[trigger] slots@[k])@.len() == REELS && forall|c: int|
                    0 <= c < REELS ==> slots@[k]@[c]@ == "?"@,
        decreases linhas - r,
    {
        let mut line: Vec<String> = Vec::new();
        line.push(String::from_str("?"));
        line.push(String::from_str("?"));
        line.push(String::from_str("?"));
        slots.push(line);
        r = r + 1;
    }
    slots
}

/// An accepted slot-machine bet stakes a positive total, at most the
/// player's coins, that is the stake per line times 1 to 10 lines.
pub proof fn lemma_accepted_niquel_bet_is_covered(linhas: i64, aposta: i64, coins: i64)
    ensures
        niquel_bet_check(linhas, aposta, coins) matches Ok(total) ==> {
            &&& 0 < total <= coins
            &&& 1 <= linhas <= 10
            &&& total == linhas * aposta
        },
{
    if niquel_bet_check(linhas, aposta, coins) is Ok {
        assert(linhas * aposta > 0) by (nonlinear_arith)
            requires
                linhas >= 1,
                aposta > 0,
        ;
    }
}

/// A bet of 1 to 10 lines, at a positive stake per line, that the player's
/// coins cover is accepted for the stake times the lines; a bet of any other
/// number of lines is refused for its lines, whatever the stake and coins.
pub proof fn lemma_covered_niquel_bet_is_accepted(linhas: i64, aposta: i64, coins: i64)
    ensures
        (1 <= linhas <= 10 && aposta > 0 && coins >= linhas * aposta) ==> (niquel_bet_check(
            linhas,
            aposta,
            coins,
        ) matches Ok(total) && total == linhas * aposta),
        (linhas < 1 || linhas > 10) ==> niquel_bet_check(linhas, aposta, coins) == Err::<
            i64,
            NiquelBetError,
        >(NiquelBetError::InvalidLines),
        (1 <= linhas <= 10 && aposta <= 0) ==> niquel_bet_check(linhas, aposta, coins) == Err::<
            i64,
            NiquelBetError,
        >(NiquelBetError::InvalidStake),
{
}

} // verus!
