use vstd::prelude::*;

verus! {

/// The pieces of `s` between the occurrences of `sep`, in order; a text
/// without `sep` is one piece, and the empty text is one empty piece.
pub open spec fn split_on(s: Seq<u8>, sep: u8) -> Seq<Seq<u8>>
    decreases s.len(),
{
    if s.len() == 0 {
        seq![Seq::<u8>::empty()]
    } else {
        let p = split_on(s.drop_last(), sep);
        if s.last() == sep {
            p.push(Seq::<u8>::empty())
        } else {
            p.update(p.len() - 1, p.last().push(s.last()))
        }
    }
}

pub proof fn lemma_split_nonempty(s: Seq<u8>, sep: u8)
    ensures
        split_on(s, sep).len() >= 1,
    decreases s.len(),
{
    if s.len() > 0 {
        lemma_split_nonempty(s.drop_last(), sep);
    }
}

/// The pieces joined back together with `sep` between neighbours.
pub open spec fn join_with(pieces: Seq<Seq<u8>>, sep: u8) -> Seq<u8>
    decreases pieces.len(),
{
    if pieces.len() <= 1 {
        if pieces.len() == 1 {
            pieces[0]
        } else {
            Seq::empty()
        }
    } else {
        join_with(pieces.drop_last(), sep).push(sep) + pieces.last()
    }
}

/// Splitting loses nothing and cuts only at separators: no piece holds
/// `sep`, and joining the pieces with `sep` gives back the text.
pub proof fn lemma_split_join(s: Seq<u8>, sep: u8)
    ensures
        split_on(s, sep).len() >= 1,
        join_with(split_on(s, sep), sep) == s,
        forall|i: int| 0 <= i < split_on(s, sep).len() ==> !(#[trigger] split_on(s, sep)[i]).contains(sep),
    decreases s.len(),
{
    if s.len() == 0 {
        assert(join_with(split_on(s, sep), sep) =~= s);
        assert forall|i: int| 0 <= i < split_on(s, sep).len() implies !(#[trigger] split_on(s, sep)[i]).contains(sep) by {
            assert(split_on(s, sep)[i] =~= Seq::<u8>::empty());
        }
    } else {
        let rest = s.drop_last();
        lemma_split_join(rest, sep);
        let p = split_on(rest, sep);
        let q = split_on(s, sep);
        if s.last() == sep {
            assert(q.drop_last() =~= p);
            assert(q.last() =~= Seq::<u8>::empty());
            assert(join_with(q, sep) =~= join_with(p, sep).push(sep));
            assert(join_with(q, sep) =~= s);
            assert forall|i: int| 0 <= i < q.len() implies !(#[trigger] q[i]).contains(sep) by {
                if i < p.len() {
                    assert(q[i] == p[i]);
                } else {
                    assert(q[i] =~= Seq::<u8>::empty());
                }
            }
        } else {
            let last = p.last().push(s.last());
            assert(q == p.update(p.len() - 1, last));
            if p.len() == 1 {
                assert(p[0] =~= rest);
                assert(q.len() == 1);
                assert(q[0] == last);
                assert(last =~= s);
                assert(join_with(q, sep) == q[0]);
            } else {
                assert(q.drop_last() =~= p.drop_last());
                assert(join_with(p, sep) == join_with(p.drop_last(), sep).push(sep) + p.last());
                let j = join_with(p.drop_last(), sep).push(sep);
                assert(join_with(q, sep) =~= j + last);
                assert(rest =~= j + p.last());
                assert(s =~= rest.push(s.last()));
                assert(j + last =~= (j + p.last()).push(s.last()));
            }
            assert forall|i: int| 0 <= i < q.len() implies !(#[trigger] q[i]).contains(sep) by {
                if i < p.len() - 1 {
                    assert(q[i] == p[i]);
                } else {
                    assert(q[i] == last);
                    assert(!p[p.len() - 1].contains(sep));
                    if last.contains(sep) {
                        let k = choose|k: int| 0 <= k < last.len() && last[k] == sep;
                        if k < last.len() - 1 {
                            assert(p.last()[k] == sep);
                        }
                    }
                }
            }
        }
    }
}

/// The texts held by a list of byte vectors.
pub open spec fn texts(v: Seq<Vec<u8>>) -> Seq<Seq<u8>> {
    Seq::new(v.len(), |i: int| v[i]@)
}

/// Splits `s` at every `sep`, as `str::split` with a one-byte separator does.
pub fn split_bytes(s: &[u8], sep: u8) -> (pieces: Vec<Vec<u8>>)
    ensures
        texts(pieces@) == split_on(s@, sep),
{
    let n = s.len();
    let mut pieces: Vec<Vec<u8>> = Vec::new();
    let mut cur: Vec<u8> = Vec::new();
    assert(s@.take(0) =~= Seq::<u8>::empty());
    assert(texts(pieces@).push(cur@) =~= split_on(s@.take(0), sep));
    for i in 0..n
        invariant
            n == s@.len(),
            texts(pieces@).push(cur@) == split_on(s@.take(i as int), sep),
    {
        let b = s[i];
        let ghost before = split_on(s@.take(i as int), sep);
        assert(s@.take(i + 1).drop_last() =~= s@.take(i as int));
        assert(s@.take(i + 1).last() == b);
        if b == sep {
            let done = cur;
            pieces.push(done);
            cur = Vec::new();
            assert(texts(pieces@) =~= before);
            assert(texts(pieces@).push(cur@) =~= before.push(Seq::<u8>::empty()));
        } else {
            cur.push(b);
            assert(texts(pieces@).push(cur@) =~= before.update(before.len() - 1, before.last().push(b)));
        }
    }
    pieces.push(cur);
    assert(s@.take(n as int) =~= s@);
    assert(texts(pieces@) =~= split_on(s@, sep));
    pieces
}

/// The kinds of enemies that the spawn list can name.
#[derive(Clone, Copy, Debug, PartialEq, Eq, Structural)]
pub enum EnemyKind {
    /// "0": flies straight down.
    Enemy0,
    /// "1": comes down to a point, fires volleys at the player, leaves.
    Enemy1,
    /// "2": heavy enemy that moves to a point firing spreads.
    Enemy2,
    /// "mid": the middle boss.
    MiddleBoss,
    /// "boss": the boss.
    BossEnemy,
}

/// The kind that the first field of a line names, if any.
pub open spec fn kind_of(field: Seq<u8>) -> Option<EnemyKind> {
    if field =~= seq![48u8] {
        Some(EnemyKind::Enemy0)
    } else if field =~= seq![49u8] {
        Some(EnemyKind::Enemy1)
    } else if field =~= seq![50u8] {
        Some(EnemyKind::Enemy2)
    } else if field =~= seq![109u8, 105u8, 100u8] {
        Some(EnemyKind::MiddleBoss)
    } else if field =~= seq![98u8, 111u8, 115u8, 115u8] {
        Some(EnemyKind::BossEnemy)
    } else {
        None
    }
}

/// How many fields a line of each kind needs: the kind, the spawn time and
/// the kind's own values (a start point, and for most kinds a target).
pub open spec fn required_fields(kind: EnemyKind) -> nat {
    match kind {
        EnemyKind::Enemy0 => 4,
        EnemyKind::Enemy1 => 5,
        EnemyKind::Enemy2 => 8,
        EnemyKind::MiddleBoss => 6,
        EnemyKind::BossEnemy => 6,
    }
}

/// Why a line of the spawn list is refused.
#[derive(Clone, Copy, Debug, PartialEq, Eq, Structural)]
pub enum LineError {
    /// The line's first two bytes are not a whole prefix of characters.
    MalformedPrefix,
    /// The line has no second field.
    MissingSpawnTime,
    /// The first field names no enemy kind.
    UnknownKind,
    /// The line has fewer fields than its kind needs.
    MissingField,
}

/// How one line of the spawn list is read.
pub enum LineClass {
    Skip,
    Entry(EnemyKind, Seq<Seq<u8>>),
    Invalid(LineError),
}

/// Empty lines and lines starting with "//" are skipped; other lines are
/// comma-separated fields, the first naming the kind.
pub open spec fn classify_line(line: Seq<u8>) -> LineClass {
    if line.len() == 0 {
        LineClass::Skip
    } else if line.len() < 2 || (line.len() > 2 && 0x80 <= line[2] && line[2] < 0xC0) {
        LineClass::Invalid(LineError::MalformedPrefix)
    } else if line[0] == 47 && line[1] == 47 {
        LineClass::Skip
    } else {
        let f = split_on(line, 44);
        if f.len() < 2 {
            LineClass::Invalid(LineError::MissingSpawnTime)
        } else {
            match kind_of(f[0]) {
                None => LineClass::Invalid(LineError::UnknownKind),
                Some(k) => if f.len() < required_fields(k) {
                    LineClass::Invalid(LineError::MissingField)
                } else {
                    LineClass::Entry(k, f)
                },
            }
        }
    }
}

/// Extra fields are allowed: a line that is not skipped, whose first field
/// names kind `k` and that has at least the fields `k` needs is an entry with
/// all its fields, and it is refused for missing fields only when it has
/// fewer.
pub proof fn lemma_field_count_rule(line: Seq<u8>, k: EnemyKind)
    requires
        line.len() >= 2,
        line.len() == 2 || !(0x80 <= line[2] && line[2] < 0xC0),
        !(line[0] == 47 && line[1] == 47),
        split_on(line, 44).len() >= 2,
        kind_of(split_on(line, 44)[0]) == Some(k),
    ensures
        split_on(line, 44).len() >= required_fields(k) ==> classify_line(line) == LineClass::Entry(
            k,
            split_on(line, 44),
        ),
        classify_line(line) == LineClass::Invalid(LineError::MissingField) <==> split_on(line, 44).len()
            < required_fields(k),
        classify_line(line) is Entry || classify_line(line) == LineClass::Invalid(LineError::MissingField),
{
}

/// Reads the first `k` of `lines`, which start at line `first` of the text:
/// the entries, or the first refused line's number and reason.
pub open spec fn read_lines(lines: Seq<Seq<u8>>, first: int, k: int) -> Result<
    Seq<(EnemyKind, Seq<Seq<u8>>)>,
    (int, LineError),
>
    decreases k,
{
    if k <= 0 {
        Ok(Seq::empty())
    } else {
        match read_lines(lines, first, k - 1) {
            Err(e) => Err(e),
            Ok(v) => match classify_line(lines[k - 1]) {
                LineClass::Skip => Ok(v),
                LineClass::Entry(kind, f) => Ok(v.push((kind, f))),
                LineClass::Invalid(r) => Err((first + k - 1, r)),
            },
        }
    }
}

/// The spawn list held by `text`: its first line is a header; each later
/// line is read by `classify_line`.
pub open spec fn spec_parse_enemy_list(text: Seq<u8>) -> Result<
    Seq<(EnemyKind, Seq<Seq<u8>>)>,
    (int, LineError),
> {
    let lines = split_on(text, 10).drop_first();
    read_lines(lines, 1, lines.len() as int)
}

/// One entry of the spawn list: the kind, and every field of its line (the
/// kind's name, the spawn time, then the kind's values) as text.
pub struct EnemyEntry {
    pub kind: EnemyKind,
    pub fields: Vec<Vec<u8>>,
}

impl View for EnemyEntry {
    type V = (EnemyKind, Seq<Seq<u8>>);

    open spec fn view(&self) -> (EnemyKind, Seq<Seq<u8>>) {
        (self.kind, texts(self.fields@))
    }
}

/// A refused line of the spawn list: its number (the header is line 0) and
/// the reason.
#[derive(Clone, Copy, Debug, PartialEq, Eq, Structural)]
pub struct EnemyListError {
    pub line: usize,
    pub reason: LineError,
}

fn bytes_are(field: &Vec<u8>, expected: &[u8]) -> (same: bool)
    ensures
        same == (field@ =~= expected@),
{
    if field.len() != expected.len() {
        return false;
    }
    let n = field.len();
    for i in 0..n
        invariant
            n == field@.len(),
            n == expected@.len(),
            forall|j: int| 0 <= j < i ==> field@[j] == expected@[j],
    {
        if field[i] != expected[i] {
            return false;
        }
    }
    true
}

fn kind_of_field(field: &Vec<u8>) -> (kind: Option<EnemyKind>)
    ensures
        kind == kind_of(field@),
{
    let zero: [u8; 1] = [48u8];
    let one: [u8; 1] = [49u8];
    let two: [u8; 1] = [50u8];
    let mid: [u8; 3] = [109u8, 105u8, 100u8];
    let boss: [u8; 4] = [98u8, 111u8, 115u8, 115u8];
    assert(zero@ =~= seq![48u8]);
    assert(one@ =~= seq![49u8]);
    assert(two@ =~= seq![50u8]);
    assert(mid@ =~= seq![109u8, 105u8, 100u8]);
    assert(boss@ =~= seq![98u8, 111u8, 115u8, 115u8]);
    if bytes_are(field, &zero) {
        Some(EnemyKind::Enemy0)
    } else if bytes_are(field, &one) {
        Some(EnemyKind::Enemy1)
    } else if bytes_are(field, &two) {
        Some(EnemyKind::Enemy2)
    } else if bytes_are(field, &mid) {
        Some(EnemyKind::MiddleBoss)
    } else if bytes_are(field, &boss) {
        Some(EnemyKind::BossEnemy)
    } else {
        None
    }
}

fn required_field_count(kind: EnemyKind) -> (n: usize)
    ensures
        n == required_fields(kind),
{
    match kind {
        EnemyKind::Enemy0 => 4,
        EnemyKind::Enemy1 => 5,
        EnemyKind::Enemy2 => 8,
        EnemyKind::MiddleBoss => 6,
        EnemyKind::BossEnemy => 6,
    }
}

/// How one line is read; `Ok(None)` for a skipped line.
fn read_line(line: &Vec<u8>) -> (r: Result<Option<EnemyEntry>, LineError>)
    ensures
        match classify_line(line@) {
            LineClass::Skip => r == Ok::<Option<EnemyEntry>, LineError>(None),
            LineClass::Entry(k, f) => r matches Ok(Some(e)) && e@ == (k, f),
            LineClass::Invalid(reason) => r == Err::<Option<EnemyEntry>, LineError>(reason),
        },
{
    let n = line.len();
    if n == 0 {
        return Ok(None);
    }
    if n < 2 || (n > 2 && 0x80u8 <= line[2] && line[2] < 0xC0u8) {
        return Err(LineError::MalformedPrefix);
    }
    if line[0] == 47u8 && line[1] == 47u8 {
        return Ok(None);
    }
    let fields = split_bytes(line.as_slice(), 44u8);
    if fields.len() < 2 {
        return Err(LineError::MissingSpawnTime);
    }
    assert(fields@[0]@ == texts(fields@)[0]);
    match kind_of_field(&fields[0]) {
        None => Err(LineError::UnknownKind),
        Some(kind) => {
            if fields.len() < required_field_count(kind) {
                Err(LineError::MissingField)
            } else {
                Ok(Some(EnemyEntry { kind, fields }))
            }
        },
    }
}

/// Reads the spawn list: the entries of its lines in order, or the first
/// line that is refused.
pub fn parse_enemy_list(text: &[u8]) -> (r: Result<Vec<EnemyEntry>, EnemyListError>)
    ensures
        match spec_parse_enemy_list(text@) {
            Ok(entries) => r matches Ok(v) && v@.map_values(|e: EnemyEntry| e@) == entries,
            Err((line, reason)) => r matches Err(e) && e.line == line && e.reason == reason,
        },
{
    let lines = split_bytes(text, 10u8);
    proof {
        lemma_split_nonempty(text@, 10u8);
    }
    let ghost rest = split_on(text@, 10u8).drop_first();
    let count = lines.len();
    let mut entries: Vec<EnemyEntry> = Vec::new();
    let mut i: usize = 1;
    assert(entries@.map_values(|e: EnemyEntry| e@) =~= Seq::<(EnemyKind, Seq<Seq<u8>>)>::empty());
    while i < count
        invariant
            1 <= i <= count,
            count == lines@.len(),
            texts(lines@) == split_on(text@, 10u8),
            rest == split_on(text@, 10u8).drop_first(),
            rest.len() == count - 1,
            read_lines(rest, 1, i - 1) == Ok::<Seq<(EnemyKind, Seq<Seq<u8>>)>, (int, LineError)>(
                entries@.map_values(|e: EnemyEntry| e@),
            ),
        decreases count - i,
    {
        assert(lines@[i as int]@ == rest[i - 1]);
        let ghost before = entries@.map_values(|e: EnemyEntry| e@);
        match read_line(&lines[i]) {
            Err(reason) => {
                assert(read_lines(rest, 1, i as int) == Err::<Seq<(EnemyKind, Seq<Seq<u8>>)>, (int, LineError)>((i as int, reason)));
                proof {
                    lemma_read_lines_error_sticks(rest, 1, i as int, rest.len() as int);
                }
                return Err(EnemyListError { line: i, reason });
            },
            Ok(None) => {},
            Ok(Some(e)) => {
                entries.push(e);
                assert(entries@.map_values(|e: EnemyEntry| e@) =~= before.push(e@));
            },
        }
        i = i + 1;
    }
    Ok(entries)
}

/// What `bool`'s `FromStr` gives for a field, with `false` where it is
/// neither "true" nor "false": the field is true exactly when it reads "true".
pub fn flag_field(field: &Vec<u8>) -> (flag: bool)
    ensures
        flag == (field@ =~= seq![116u8, 114u8, 117u8, 101u8]),
{
    let word: [u8; 4] = [116u8, 114u8, 117u8, 101u8];
    assert(word@ =~= seq![116u8, 114u8, 117u8, 101u8]);
    bytes_are(field, &word)
}

proof fn lemma_read_lines_error_sticks(lines: Seq<Seq<u8>>, first: int, k: int, m: int)
    requires
        k <= m,
        read_lines(lines, first, k) is Err,
    ensures
        read_lines(lines, first, m) == read_lines(lines, first, k),
    decreases m - k,
{
    if k < m {
        lemma_read_lines_error_sticks(lines, first, k, m - 1);
    }
}

} // verus!
