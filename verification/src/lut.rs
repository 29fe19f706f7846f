//! Compiled-in lookup table of known optimal Golomb rulers: for mark counts
//! 1 to 28, the optimal length and one canonical optimal position sequence.
//! Mark counts outside that range receive `None` from every lookup.

use vstd::prelude::*;

verus! {

/// The known optimal ruler length for the given mark count, if any.
pub open spec fn optimal_length_spec(marks: usize) -> Option<usize> {

    if marks == 1 {
        Some(0usize)
    } else if marks == 2 {
        Some(1usize)
    } else if marks == 3 {
        Some(3usize)
    } else if marks == 4 {
        Some(6usize)
    } else if marks == 5 {
        Some(11usize)
    } else if marks == 6 {
        Some(17usize)
    } else if marks == 7 {
        Some(25usize)
    } else if marks == 8 {
        Some(34usize)
    } else if marks == 9 {
        Some(44usize)
    } else if marks == 10 {
        Some(55usize)
    } else if marks == 11 {
        Some(72usize)
    } else if marks == 12 {
        Some(85usize)
    } else if marks == 13 {
        Some(106usize)
    } else if marks == 14 {
        Some(127usize)
    } else if marks == 15 {
        Some(151usize)
    } else if marks == 16 {
        Some(177usize)
    } else if marks == 17 {
        Some(199usize)
    } else if marks == 18 {
        Some(216usize)
    } else if marks == 19 {
        Some(246usize)
    } else if marks == 20 {
        Some(283usize)
    } else if marks == 21 {
        Some(333usize)
    } else if marks == 22 {
        Some(356usize)
    } else if marks == 23 {
        Some(372usize)
    } else if marks == 24 {
        Some(425usize)
    } else if marks == 25 {
        Some(480usize)
    } else if marks == 26 {
        Some(492usize)
    } else if marks == 27 {
        Some(553usize)
    } else if marks == 28 {
        Some(585usize)
    } else {
        None
    }
}

/// The canonical known optimal ruler for the given mark count, if any.
pub open spec fn optimal_ruler_spec(marks: usize) -> Option<Seq<usize>> {
    if marks == 1 {
        Some(seq![0usize])
    } else if marks == 2 {
        Some(seq![0usize, 1usize])
    } else if marks == 3 {
        Some(seq![0usize, 1usize, 3usize])
    } else if marks == 4 {
        Some(seq![0usize, 1usize, 4usize, 6usize])
    } else if marks == 5 {
        Some(seq![0usize, 1usize, 4usize, 9usize, 11usize])
    } else if marks == 6 {
        Some(seq![0usize, 1usize, 4usize, 10usize, 12usize, 17usize])
    } else if marks == 7 {
        Some(seq![0usize, 1usize, 4usize, 10usize, 18usize, 23usize, 25usize])
    } else if marks == 8 {
        Some(seq![0usize, 1usize, 4usize, 9usize, 15usize, 22usize, 32usize, 34usize])
    } else if marks == 9 {
        Some(seq![0usize, 1usize, 5usize, 12usize, 25usize, 27usize, 35usize, 41usize, 44usize])
    } else if marks == 10 {
        Some(seq![0usize, 1usize, 6usize, 10usize, 23usize, 26usize, 34usize, 41usize, 53usize, 55usize])
    } else if marks == 11 {
        Some(seq![0usize, 1usize, 4usize, 13usize, 28usize, 33usize, 47usize, 54usize, 64usize, 70usize, 72usize])
    } else if marks == 12 {
        Some(seq![0usize, 2usize, 6usize, 24usize, 29usize, 40usize, 43usize, 55usize, 68usize, 75usize, 76usize, 85usize])
    } else if marks == 13 {
        Some(seq![0usize, 2usize, 5usize, 25usize, 37usize, 43usize, 59usize, 70usize, 85usize, 89usize, 98usize, 99usize, 106usize])
    } else if marks == 14 {
        Some(seq![0usize, 4usize, 6usize, 20usize, 35usize, 52usize, 59usize, 77usize, 78usize, 86usize, 89usize, 99usize, 122usize, 127usize])
    } else if marks == 15 {
        Some(seq![0usize, 4usize, 20usize, 30usize, 57usize, 59usize, 62usize, 76usize, 100usize, 111usize, 123usize, 136usize, 144usize, 145usize, 151usize])
    } else if marks == 16 {
        Some(seq![0usize, 1usize, 4usize, 11usize, 26usize, 32usize, 56usize, 68usize, 76usize, 115usize, 117usize, 134usize, 150usize, 163usize, 168usize, 177usize])
    } else if marks == 17 {
        Some(seq![0usize, 5usize, 7usize, 17usize, 52usize, 56usize, 67usize, 80usize, 81usize, 100usize, 122usize, 138usize, 159usize, 165usize, 168usize, 191usize, 199usize])
    } else if marks == 18 {
        Some(seq![0usize, 2usize, 10usize, 22usize, 53usize, 56usize, 82usize, 83usize, 89usize, 98usize, 130usize, 148usize, 155usize, 175usize, 177usize, 199usize, 201usize, 216usize])
    } else if marks == 19 {
        Some(seq![0usize, 1usize, 6usize, 25usize, 32usize, 72usize, 100usize, 108usize, 120usize, 130usize, 153usize, 169usize, 187usize, 190usize, 204usize, 231usize, 233usize, 242usize, 246usize])
    } else if marks == 20 {
        Some(seq![0usize, 1usize, 8usize, 11usize, 37usize, 49usize, 58usize, 77usize, 94usize, 116usize, 135usize, 154usize, 170usize, 203usize, 206usize, 227usize, 232usize, 270usize, 273usize, 283usize])
    } else if marks == 21 {
        Some(seq![0usize, 10usize, 21usize, 27usize, 59usize, 85usize, 93usize, 111usize, 135usize, 137usize, 149usize, 186usize, 199usize, 207usize, 229usize, 257usize, 279usize, 283usize, 291usize, 309usize, 333usize])
    } else if marks == 22 {
        Some(seq![0usize, 4usize, 15usize, 23usize, 31usize, 57usize, 78usize, 104usize, 122usize, 139usize, 149usize, 185usize, 202usize, 211usize, 246usize, 260usize, 271usize, 292usize, 311usize, 329usize, 347usize, 356usize])
    } else if marks == 23 {
        Some(seq![0usize, 2usize, 11usize, 29usize, 62usize, 77usize, 86usize, 111usize, 123usize, 132usize, 150usize, 161usize, 173usize, 189usize, 199usize, 222usize, 272usize, 279usize, 293usize, 330usize, 342usize, 365usize, 372usize])
    } else if marks == 24 {
        Some(seq![0usize, 1usize, 17usize, 21usize, 41usize, 73usize, 77usize, 88usize, 98usize, 118usize, 152usize, 177usize, 191usize, 206usize, 238usize, 252usize, 278usize, 296usize, 329usize, 349usize, 387usize, 400usize, 413usize, 425usize])
    } else if marks == 25 {
        Some(seq![0usize, 6usize, 35usize, 51usize, 61usize, 84usize, 96usize, 122usize, 127usize, 148usize, 154usize, 175usize, 191usize, 205usize, 242usize, 278usize, 296usize, 307usize, 338usize, 348usize, 382usize, 398usize, 417usize, 431usize, 480usize])
    } else if marks == 26 {
        Some(seq![0usize, 17usize, 30usize, 56usize, 81usize, 96usize, 126usize, 142usize, 152usize, 180usize, 181usize, 203usize, 230usize, 256usize, 281usize, 289usize, 317usize, 344usize, 358usize, 384usize, 403usize, 425usize, 445usize, 466usize, 475usize, 492usize])
    } else if marks == 27 {
        Some(seq![0usize, 3usize, 16usize, 39usize, 71usize, 83usize, 104usize, 130usize, 151usize, 167usize, 198usize, 204usize, 220usize, 242usize, 288usize, 304usize, 324usize, 359usize, 381usize, 399usize, 452usize, 475usize, 492usize, 499usize, 526usize, 532usize, 553usize])
    } else if marks == 28 {
        Some(seq![0usize, 2usize, 8usize, 31usize, 41usize, 53usize, 92usize, 117usize, 155usize, 190usize, 203usize, 209usize, 230usize, 245usize, 257usize, 272usize, 292usize, 304usize, 337usize, 377usize, 386usize, 434usize, 457usize, 483usize, 507usize, 523usize, 553usize, 585usize])
    } else {
        None
    }
}

/// Returns the optimal length for a ruler with the given number of marks,
/// if known.
pub fn get_optimal_length(marks: usize) -> (r: Option<usize>)
    ensures
        r == optimal_length_spec(marks),
{
    if marks == 1 {
        Some(0)
    } else if marks == 2 {
        Some(1)
    } else if marks == 3 {
        Some(3)
    } else if marks == 4 {
        Some(6)
    } else if marks == 5 {
        Some(11)
    } else if marks == 6 {
        Some(17)
    } else if marks == 7 {
        Some(25)
    } else if marks == 8 {
        Some(34)
    } else if marks == 9 {
        Some(44)
    } else if marks == 10 {
        Some(55)
    } else if marks == 11 {
        Some(72)
    } else if marks == 12 {
        Some(85)
    } else if marks == 13 {
        Some(106)
    } else if marks == 14 {
        Some(127)
    } else if marks == 15 {
        Some(151)
    } else if marks == 16 {
        Some(177)
    } else if marks == 17 {
        Some(199)
    } else if marks == 18 {
        Some(216)
    } else if marks == 19 {
        Some(246)
    } else if marks == 20 {
        Some(283)
    } else if marks == 21 {
        Some(333)
    } else if marks == 22 {
        Some(356)
    } else if marks == 23 {
        Some(372)
    } else if marks == 24 {
        Some(425)
    } else if marks == 25 {
        Some(480)
    } else if marks == 26 {
        Some(492)
    } else if marks == 27 {
        Some(553)
    } else if marks == 28 {
        Some(585)
    } else {
        None
    }
}

/// Returns the known canonical optimal ruler for the given number of marks,
/// if available.
pub fn get_optimal_ruler(marks: usize) -> (r: Option<Vec<usize>>)
    ensures
        match r {
            Some(v) => optimal_ruler_spec(marks) == Some(v@),
            None => optimal_ruler_spec(marks) is None,
        },
{
    if marks == 1 {
        let v: Vec<usize> = vec![0];
        proof {
            assert(v@ =~= seq![0usize]);
        }
        Some(v)
    } else if marks == 2 {
        let v: Vec<usize> = vec![0, 1];
        proof {
            assert(v@ =~= seq![0usize, 1usize]);
        }
        Some(v)
    } else if marks == 3 {
        let v: Vec<usize> = vec![0, 1, 3];
        proof {
            assert(v@ =~= seq![0usize, 1usize, 3usize]);
        }
        Some(v)
    } else if marks == 4 {
        let v: Vec<usize> = vec![0, 1, 4, 6];
        proof {
            assert(v@ =~= seq![0usize, 1usize, 4usize, 6usize]);
        }
        Some(v)
    } else if marks == 5 {
        let v: Vec<usize> = vec![0, 1, 4, 9, 11];
        proof {
            assert(v@ =~= seq![0usize, 1usize, 4usize, 9usize, 11usize]);
        }
        Some(v)
    } else if marks == 6 {
        let v: Vec<usize> = vec![0, 1, 4, 10, 12, 17];
        proof {
            assert(v@ =~= seq![0usize, 1usize, 4usize, 10usize, 12usize, 17usize]);
        }
        Some(v)
    } else if marks == 7 {
        let v: Vec<usize> = vec![0, 1, 4, 10, 18, 23, 25];
        proof {
            assert(v@ =~= seq![0usize, 1usize, 4usize, 10usize, 18usize, 23usize, 25usize]);
        }
        Some(v)
    } else if marks == 8 {
        let v: Vec<usize> = vec![0, 1, 4, 9, 15, 22, 32, 34];
        proof {
            assert(v@ =~= seq![0usize, 1usize, 4usize, 9usize, 15usize, 22usize, 32usize, 34usize]);
        }
        Some(v)
    } else if marks == 9 {
        let v: Vec<usize> = vec![0, 1, 5, 12, 25, 27, 35, 41, 44];
        proof {
            assert(v@ =~= seq![0usize, 1usize, 5usize, 12usize, 25usize, 27usize, 35usize, 41usize, 44usize]);
        }
        Some(v)
    } else if marks == 10 {
        let v: Vec<usize> = vec![0, 1, 6, 10, 23, 26, 34, 41, 53, 55];
        proof {
            assert(v@ =~= seq![0usize, 1usize, 6usize, 10usize, 23usize, 26usize, 34usize, 41usize, 53usize, 55usize]);
        }
        Some(v)
    } else if marks == 11 {
        let v: Vec<usize> = vec![0, 1, 4, 13, 28, 33, 47, 54, 64, 70, 72];
        proof {
            assert(v@ =~= seq![0usize, 1usize, 4usize, 13usize, 28usize, 33usize, 47usize, 54usize, 64usize, 70usize, 72usize]);
        }
        Some(v)
    } else if marks == 12 {
        let v: Vec<usize> = vec![0, 2, 6, 24, 29, 40, 43, 55, 68, 75, 76, 85];
        proof {
            assert(v@ =~= seq![0usize, 2usize, 6usize, 24usize, 29usize, 40usize, 43usize, 55usize, 68usize, 75usize, 76usize, 85usize]);
        }
        Some(v)
    } else if marks == 13 {
        let v: Vec<usize> = vec![0, 2, 5, 25, 37, 43, 59, 70, 85, 89, 98, 99, 106];
        proof {
            assert(v@ =~= seq![0usize, 2usize, 5usize, 25usize, 37usize, 43usize, 59usize, 70usize, 85usize, 89usize, 98usize, 99usize, 106usize]);
        }
        Some(v)
    } else if marks == 14 {
        let v: Vec<usize> = vec![0, 4, 6, 20, 35, 52, 59, 77, 78, 86, 89, 99, 122, 127];
        proof {
            assert(v@ =~= seq![0usize, 4usize, 6usize, 20usize, 35usize, 52usize, 59usize, 77usize, 78usize, 86usize, 89usize, 99usize, 122usize, 127usize]);
        }
        Some(v)
    } else if marks == 15 {
        let v: Vec<usize> = vec![0, 4, 20, 30, 57, 59, 62, 76, 100, 111, 123, 136, 144, 145, 151];
        proof {
            assert(v@ =~= seq![0usize, 4usize, 20usize, 30usize, 57usize, 59usize, 62usize, 76usize, 100usize, 111usize, 123usize, 136usize, 144usize, 145usize, 151usize]);
        }
        Some(v)
    } else if marks == 16 {
        let v: Vec<usize> = vec![0, 1, 4, 11, 26, 32, 56, 68, 76, 115, 117, 134, 150, 163, 168, 177];
        proof {
            assert(v@ =~= seq![0usize, 1usize, 4usize, 11usize, 26usize, 32usize, 56usize, 68usize, 76usize, 115usize, 117usize, 134usize, 150usize, 163usize, 168usize, 177usize]);
        }
        Some(v)
    } else if marks == 17 {
        let v: Vec<usize> = vec![0, 5, 7, 17, 52, 56, 67, 80, 81, 100, 122, 138, 159, 165, 168, 191, 199];
        proof {
            assert(v@ =~= seq![0usize, 5usize, 7usize, 17usize, 52usize, 56usize, 67usize, 80usize, 81usize, 100usize, 122usize, 138usize, 159usize, 165usize, 168usize, 191usize, 199usize]);
        }
        Some(v)
    } else if marks == 18 {
        let v: Vec<usize> = vec![0, 2, 10, 22, 53, 56, 82, 83, 89, 98, 130, 148, 155, 175, 177, 199, 201, 216];
        proof {
            assert(v@ =~= seq![0usize, 2usize, 10usize, 22usize, 53usize, 56usize, 82usize, 83usize, 89usize, 98usize, 130usize, 148usize, 155usize, 175usize, 177usize, 199usize, 201usize, 216usize]);
        }
        Some(v)
    } else if marks == 19 {
        let v: Vec<usize> = vec![0, 1, 6, 25, 32, 72, 100, 108, 120, 130, 153, 169, 187, 190, 204, 231, 233, 242, 246];
        proof {
            assert(v@ =~= seq![0usize, 1usize, 6usize, 25usize, 32usize, 72usize, 100usize, 108usize, 120usize, 130usize, 153usize, 169usize, 187usize, 190usize, 204usize, 231usize, 233usize, 242usize, 246usize]);
        }
        Some(v)
    } else if marks == 20 {
        let v: Vec<usize> = vec![0, 1, 8, 11, 37, 49, 58, 77, 94, 116, 135, 154, 170, 203, 206, 227, 232, 270, 273, 283];
        proof {
            assert(v@ =~= seq![0usize, 1usize, 8usize, 11usize, 37usize, 49usize, 58usize, 77usize, 94usize, 116usize, 135usize, 154usize, 170usize, 203usize, 206usize, 227usize, 232usize, 270usize, 273usize, 283usize]);
        }
        Some(v)
    } else if marks == 21 {
        let v: Vec<usize> = vec![0, 10, 21, 27, 59, 85, 93, 111, 135, 137, 149, 186, 199, 207, 229, 257, 279, 283, 291, 309, 333];
        proof {
            assert(v@ =~= seq![0usize, 10usize, 21usize, 27usize, 59usize, 85usize, 93usize, 111usize, 135usize, 137usize, 149usize, 186usize, 199usize, 207usize, 229usize, 257usize, 279usize, 283usize, 291usize, 309usize, 333usize]);
        }
        Some(v)
    } else if marks == 22 {
        let v: Vec<usize> = vec![0, 4, 15, 23, 31, 57, 78, 104, 122, 139, 149, 185, 202, 211, 246, 260, 271, 292, 311, 329, 347, 356];
        proof {
            assert(v@ =~= seq![0usize, 4usize, 15usize, 23usize, 31usize, 57usize, 78usize, 104usize, 122usize, 139usize, 149usize, 185usize, 202usize, 211usize, 246usize, 260usize, 271usize, 292usize, 311usize, 329usize, 347usize, 356usize]);
        }
        Some(v)
    } else if marks == 23 {
        let v: Vec<usize> = vec![0, 2, 11, 29, 62, 77, 86, 111, 123, 132, 150, 161, 173, 189, 199, 222, 272, 279, 293, 330, 342, 365, 372];
        proof {
            assert(v@ =~= seq![0usize, 2usize, 11usize, 29usize, 62usize, 77usize, 86usize, 111usize, 123usize, 132usize, 150usize, 161usize, 173usize, 189usize, 199usize, 222usize, 272usize, 279usize, 293usize, 330usize, 342usize, 365usize, 372usize]);
        }
        Some(v)
    } else if marks == 24 {
        let v: Vec<usize> = vec![0, 1, 17, 21, 41, 73, 77, 88, 98, 118, 152, 177, 191, 206, 238, 252, 278, 296, 329, 349, 387, 400, 413, 425];
        proof {
            assert(v@ =~= seq![0usize, 1usize, 17usize, 21usize, 41usize, 73usize, 77usize, 88usize, 98usize, 118usize, 152usize, 177usize, 191usize, 206usize, 238usize, 252usize, 278usize, 296usize, 329usize, 349usize, 387usize, 400usize, 413usize, 425usize]);
        }
        Some(v)
    } else if marks == 25 {
        let v: Vec<usize> = vec![0, 6, 35, 51, 61, 84, 96, 122, 127, 148, 154, 175, 191, 205, 242, 278, 296, 307, 338, 348, 382, 398, 417, 431, 480];
        proof {
            assert(v@ =~= seq![0usize, 6usize, 35usize, 51usize, 61usize, 84usize, 96usize, 122usize, 127usize, 148usize, 154usize, 175usize, 191usize, 205usize, 242usize, 278usize, 296usize, 307usize, 338usize, 348usize, 382usize, 398usize, 417usize, 431usize, 480usize]);
        }
        Some(v)
    } else if marks == 26 {
        let v: Vec<usize> = vec![0, 17, 30, 56, 81, 96, 126, 142, 152, 180, 181, 203, 230, 256, 281, 289, 317, 344, 358, 384, 403, 425, 445, 466, 475, 492];
        proof {
            assert(v@ =~= seq![0usize, 17usize, 30usize, 56usize, 81usize, 96usize, 126usize, 142usize, 152usize, 180usize, 181usize, 203usize, 230usize, 256usize, 281usize, 289usize, 317usize, 344usize, 358usize, 384usize, 403usize, 425usize, 445usize, 466usize, 475usize, 492usize]);
        }
        Some(v)
    } else if marks == 27 {
        let v: Vec<usize> = vec![0, 3, 16, 39, 71, 83, 104, 130, 151, 167, 198, 204, 220, 242, 288, 304, 324, 359, 381, 399, 452, 475, 492, 499, 526, 532, 553];
        proof {
            assert(v@ =~= seq![0usize, 3usize, 16usize, 39usize, 71usize, 83usize, 104usize, 130usize, 151usize, 167usize, 198usize, 204usize, 220usize, 242usize, 288usize, 304usize, 324usize, 359usize, 381usize, 399usize, 452usize, 475usize, 492usize, 499usize, 526usize, 532usize, 553usize]);
        }
        Some(v)
    } else if marks == 28 {
        let v: Vec<usize> = vec![0, 2, 8, 31, 41, 53, 92, 117, 155, 190, 203, 209, 230, 245, 257, 272, 292, 304, 337, 377, 386, 434, 457, 483, 507, 523, 553, 585];
        proof {
            assert(v@ =~= seq![0usize, 2usize, 8usize, 31usize, 41usize, 53usize, 92usize, 117usize, 155usize, 190usize, 203usize, 209usize, 230usize, 245usize, 257usize, 272usize, 292usize, 304usize, 337usize, 377usize, 386usize, 434usize, 457usize, 483usize, 507usize, 523usize, 553usize, 585usize]);
        }
        Some(v)
    } else {
        None
    }
}

/// Returns true when the given length is the known optimal length for the
/// given number of marks.
pub fn is_optimal_length(marks: usize, length: usize) -> (r: bool)
    ensures
        r == (optimal_length_spec(marks) == Some(length)),
{
    match get_optimal_length(marks) {
        Some(l) => l == length,
        None => false,
    }
}

} // verus!
