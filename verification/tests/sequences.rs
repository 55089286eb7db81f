use hado::Monad;

#[test]
fn main() {
    assert_eq!(
        Some(3),
        Monad::bind(Some(1), |x| Monad::bind(Some(2), |y| Some(x + y)))
    );
    assert_eq!(
        Some(3),
        Monad::bind(Some(1), |x| {
            println!("x: {:?}", x);
            Monad::bind(Some(2), |y| Some(x + y))
        })
    );
    assert_eq!(
        {
            let t: Vec<u32> = vec![0, 0, 1, 1, 2, 2];
            t
        },
        Monad::bind(vec![0, 1, 2], |a| {
            println!("a: {:?}", a);
            Monad::bind(vec![a, a], |b| Monad::<Vec<u32>>::ret(b))
        })
    );
    assert_eq!(
        Monad::bind(vec![0, 1, 2], |a| Monad::bind(vec![a, a], |b| {
            Monad::<Vec<u32>>::ret(b)
        })),
        Monad::bind(vec![0, 1, 2], |a| vec![a, a])
    );
    assert_eq!(
        Monad::bind(vec![0, 1, 2], |_| {
            let b: u32 = 7;
            Monad::<Vec<u32>>::ret(b)
        }),
        Monad::bind(vec![0, 1, 2], |_| vec![7])
    );
}

// Mathematical "errors" the fallible family carries as its payload.
#[derive(Debug, PartialEq)]
pub enum MathError {
    DivisionByZero,
    NegativeLogarithm,
    NegativeSquareRoot,
}

type MathResult = Result<f64, MathError>;

fn div(x: f64, y: f64) -> MathResult {
    if y == 0.0 {
        Err(MathError::DivisionByZero)
    } else {
        Ok(x / y)
    }
}

fn sqrt(x: f64) -> MathResult {
    if x < 0.0 {
        Err(MathError::NegativeSquareRoot)
    } else {
        Ok(x.sqrt())
    }
}

fn ln(x: f64) -> MathResult {
    if x < 0.0 {
        Err(MathError::NegativeLogarithm)
    } else {
        Ok(x.ln())
    }
}

fn op(x: f64, y: f64) -> MathResult {
    Monad::bind(div(x, y), |ratio| {
        println!("{:?}", ratio);
        Monad::bind(ln(ratio), |ln| {
            println!("{:?}", ln);
            sqrt(ln)
        })
    })
}

#[test]
fn division() {
    assert_eq!(op(1.0, 10.0), Err(MathError::NegativeSquareRoot));
}

#[test]
fn division_by_zero_is_the_first_error() {
    assert_eq!(op(1.0, 0.0), Err(MathError::DivisionByZero));
}

#[test]
fn negative_logarithm_is_reported() {
    assert_eq!(op(-1.0, 10.0), Err(MathError::NegativeLogarithm));
}
