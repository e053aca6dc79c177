//! Chords as semitone offsets above an implicit root, the fixed catalog of
//! chords, and their inversions.

use vstd::prelude::*;

verus! {

/// A named chord: semitone offsets above an implicit root at offset 0.
pub struct Chord {
    pub name: String,
    pub offsets: Vec<usize>,
}

/// The number of chords in the catalog.
pub open spec fn catalog_len() -> nat {
    15
}

/// The name of the `i`-th chord of the catalog.
pub open spec fn catalog_name(i: int) -> Seq<char> {
    if i == 0 {
        "MAJ"@
    } else if i == 1 {
        "MAJ6"@
    } else if i == 2 {
        "DOM7"@
    } else if i == 3 {
        "MAJ7"@
    } else if i == 4 {
        "AUG"@
    } else if i == 5 {
        "AUG7"@
    } else if i == 6 {
        "MIN"@
    } else if i == 7 {
        "MIN6"@
    } else if i == 8 {
        "MIN7"@
    } else if i == 9 {
        "MINMAJ7"@
    } else if i == 10 {
        "DIM"@
    } else if i == 11 {
        "DIM7"@
    } else if i == 12 {
        "HDIM7"@
    } else if i == 13 {
        "POW"@
    } else {
        "POW_AUG"@
    }
}

/// The offsets of the `i`-th chord of the catalog.
pub open spec fn catalog_offsets(i: int) -> Seq<usize> {
    if i == 0 {
        seq![0, 4, 7]
    } else if i == 1 {
        seq![0, 4, 7, 9]
    } else if i == 2 {
        seq![0, 4, 7, 10]
    } else if i == 3 {
        seq![0, 4, 7, 11]
    } else if i == 4 {
        seq![0, 4, 8]
    } else if i == 5 {
        seq![0, 4, 8, 10]
    } else if i == 6 {
        seq![0, 3, 7]
    } else if i == 7 {
        seq![0, 3, 7, 9]
    } else if i == 8 {
        seq![0, 3, 7, 10]
    } else if i == 9 {
        seq![0, 3, 7, 11]
    } else if i == 10 {
        seq![0, 3, 6]
    } else if i == 11 {
        seq![0, 3, 6, 9]
    } else if i == 12 {
        seq![0, 3, 6, 10]
    } else if i == 13 {
        seq![0, 7]
    } else {
        seq![0, 7, 12]
    }
}

/// The offsets of the `n`-th inversion: each of the first `n` offsets raised
/// by one octave, the others kept.
pub open spec fn inversion_offsets(offsets: Seq<usize>, n: nat) -> Seq<usize> {
    Seq::new(offsets.len(), |j: int| if j < n { (offsets[j] + 12) as usize } else { offsets[j] })
}

impl Chord {
    pub fn make(n: &str, offsets: Vec<usize>) -> (r: Chord)
        ensures
            r.name@ == n@,
            r.offsets@ == offsets@,
    {
        Chord { name: n.to_owned(), offsets }
    }

    pub fn len(&self) -> (r: usize)
        ensures
            r == self.offsets@.len(),
    {
        self.offsets.len()
    }

    /// A copy of the chord, sharing nothing with it.
    pub fn duplicate(&self) -> (r: Chord)
        ensures
            r.name@ == self.name@,
            r.offsets@ == self.offsets@,
    {
        Chord { name: self.name.clone(), offsets: self.offsets.clone() }
    }

    /// The inversions of an `N`-note chord, `N - 1` of them: the `k`-th
    /// (counting from one) has its first `k` offsets raised by an octave, the
    /// raises of the earlier inversions kept.
    pub fn inversions(&self) -> (r: Vec<Chord>)
        requires
            forall|j: int| 0 <= j < self.offsets@.len() ==> self.offsets@[j] + 12 <= usize::MAX,
        ensures
            self.offsets@.len() == 0 ==> r@.len() == 0,
            self.offsets@.len() > 0 ==> r@.len() == self.offsets@.len() - 1,
            forall|k: int|
                0 <= k < r@.len() ==> {
                    &&& r@[k].name@ == self.name@
                    &&& r@[k].offsets@ == inversion_offsets(self.offsets@, (k + 1) as nat)
                },
    {
        let mut r: Vec<Chord> = Vec::new();
        let mut working = self.duplicate();
        let n = self.len();
        if n == 0 {
            return r;
        }
        let mut k: usize = 0;
        while k < n - 1
            invariant
                n == self.offsets@.len(),
                n > 0,
                k <= n - 1,
                working.name@ == self.name@,
                working.offsets@ == inversion_offsets(self.offsets@, k as nat),
                working.offsets@.len() == n,
                forall|j: int| 0 <= j < self.offsets@.len() ==> self.offsets@[j] + 12 <= usize::MAX,
                r@.len() == k,
                forall|i: int|
                    0 <= i < k ==> {
                        &&& r@[i].name@ == self.name@
                        &&& r@[i].offsets@ == inversion_offsets(self.offsets@, (i + 1) as nat)
                    },
            decreases n - 1 - k,
        {
            assert(inversion_offsets(self.offsets@, k as nat)[k as int] == self.offsets@[k as int]);
            let bumped = working.offsets[k] + 12;
            working.offsets.set(k, bumped);
            assert(working.offsets@ =~= inversion_offsets(self.offsets@, (k + 1) as nat));
            let copy = working.duplicate();
            let ghost before = r@;
            r.push(copy);
            assert forall|i: int| 0 <= i < k + 1 implies {
                &&& r@[i].name@ == self.name@
                &&& r@[i].offsets@ == inversion_offsets(self.offsets@, (i + 1) as nat)
            } by {
                if i < k {
                    assert(r@[i] == before[i]);
                }
            }
            k = k + 1;
        }
        r
    }
}

/// The catalog of chords, in its fixed order.
pub fn build_chords() -> (r: Vec<Chord>)
    ensures
        r@.len() == catalog_len(),
        forall|i: int|
            0 <= i < r@.len() ==> r@[i].name@ == catalog_name(i) && r@[i].offsets@ == catalog_offsets(i),
{
    let mut v: Vec<Chord> = Vec::new();
    v.push(Chord::make("MAJ", vec![0, 4, 7]));
    v.push(Chord::make("MAJ6", vec![0, 4, 7, 9]));
    v.push(Chord::make("DOM7", vec![0, 4, 7, 10]));
    v.push(Chord::make("MAJ7", vec![0, 4, 7, 11]));
    v.push(Chord::make("AUG", vec![0, 4, 8]));
    v.push(Chord::make("AUG7", vec![0, 4, 8, 10]));
    v.push(Chord::make("MIN", vec![0, 3, 7]));
    v.push(Chord::make("MIN6", vec![0, 3, 7, 9]));
    v.push(Chord::make("MIN7", vec![0, 3, 7, 10]));
    v.push(Chord::make("MINMAJ7", vec![0, 3, 7, 11]));
    v.push(Chord::make("DIM", vec![0, 3, 6]));
    v.push(Chord::make("DIM7", vec![0, 3, 6, 9]));
    v.push(Chord::make("HDIM7", vec![0, 3, 6, 10]));
    v.push(Chord::make("POW", vec![0, 7]));
    v.push(Chord::make("POW_AUG", vec![0, 7, 12]));
    v
}

} // verus!
