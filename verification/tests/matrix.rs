use rusty_tree::math_2d::Matrix;
use rusty_tree::math_2d::Vector;

#[test]
fn creation() {
    let reference = Matrix {
        a: 1,
        b: 1,
        c: 1,
        d: 1,
    };

    assert_eq!(Matrix::new(1, 1, 1, 1), reference);
    assert_eq!(Matrix::scalar(1), reference);
    assert_eq!(Matrix::zero(), Matrix::scalar(0));
    assert_eq!(
        Matrix::unity(),
        Matrix {
            a: 1,
            b: 0,
            c: 0,
            d: 1,
        }
    )
}

#[test]
fn matrix_display() {
    assert_eq!(Matrix::unity().to_string(), "((1, 0), (0, 1))");
    assert_eq!(Matrix::new(-1, 20, 0, -300).to_string(), "((-1, 20), (0, -300))");
}

#[test]
fn matrix_add() {
    let x = Matrix::unity();
    let y = Matrix::scalar(1);
    let reference = x + y;

    assert_eq!(reference, Matrix::new(2, 1, 1, 2));
    assert_eq!(reference, y + x);
}

#[test]
fn matrix_add_asign() {
    let mut x1 = Matrix::unity();
    let y = Matrix::scalar(1);

    x1 += y;
    assert_eq!(x1, Matrix::new(2, 1, 1, 2));
}

#[test]
fn matrix_mul() {
    let x = Matrix::unity();
    let y = Matrix::scalar(1);
    let reference = x * y;

    assert_eq!(reference, Matrix::scalar(1));
    assert_eq!(reference, y * x);
}

#[test]
fn matrix_mul_f64() {
    let x = Matrix::unity();
    let y = 2;
    let reference = x * y;

    assert_eq!(reference, Matrix::new(2, 0, 0, 2));
    assert_eq!(reference, y * x);
}

#[test]
fn mul_assign() {
    let mut x1 = Matrix::unity();
    let y = Matrix::scalar(1);

    x1 *= y;
    assert_eq!(x1, Matrix::scalar(1));
}

#[test]
fn matrix_mul_f64_assign() {
    let mut x_1 = Matrix::unity();
    let y = 2;

    x_1 *= y;
    assert_eq!(x_1, Matrix::new(2, 0, 0, 2));
}

#[test]
fn matrix_neg() {
    let x = Matrix::scalar(1);
    assert_eq!(-x, Matrix::scalar(-1));
}

#[test]
fn matrix_sub() {
    let x = Matrix::unity();
    let y = Matrix::scalar(1);
    let reference = x - y;

    assert_eq!(reference, Matrix::new(0, -1, -1, 0));
    assert_eq!(reference, -(y - x));
}

#[test]
fn matrix_sub_asign() {
    let mut x1 = Matrix::unity();
    let y = Matrix::scalar(1);

    x1 -= y;
    assert_eq!(x1, Matrix::new(0, -1, -1, 0));
}

#[test]
fn products_go_by_rows_and_columns() {
    let m = Matrix::new(1, 2, 3, 4);
    let n = Matrix::new(5, 6, 7, 8);
    assert_eq!(m * n, Matrix::new(19, 22, 43, 50));
    assert_eq!(n * m, Matrix::new(23, 34, 31, 46));
    assert_eq!(m * Vector::new(5, 6), Vector::new(17, 39));
}

#[test]
fn mul_vector_matrix() {
    let m = Matrix::scalar(1);
    let v = Vector::scalar(2);

    assert_eq!(m * v, Vector::scalar(4));
}

#[test]
fn quarter_turn_rotations() {
    assert_eq!(Matrix::rotation_degree(0), Matrix::unity());
    assert_eq!(Matrix::rotation_degree(90), Matrix::new(0, -1, 1, 0));
    assert_eq!(Matrix::rotation_degree(180), Matrix::new(-1, 0, 0, -1));
    assert_eq!(Matrix::rotation_degree(270), Matrix::new(0, 1, -1, 0));
    assert_eq!(Matrix::rotation_degree(360), Matrix::unity());
    assert_eq!(Matrix::rotation_degree(-90), Matrix::rotation_degree(270));
    assert_eq!(Matrix::rotation_degree(-180), Matrix::rotation_degree(180));
    assert_eq!(Matrix::rotation_degree(-270), Matrix::rotation_degree(90));
    assert_eq!(Matrix::rotation_degree(-360), Matrix::unity());
    assert_eq!(Matrix::rotation_degree(90 * 1001), Matrix::rotation_degree(90));
    // turns add up
    assert_eq!(
        Matrix::rotation_degree(90) * Matrix::rotation_degree(180),
        Matrix::rotation_degree(270)
    );
}

#[test]
fn rotate_vector() {
    let origin = Vector::new(1, 1);
    let x = Vector::new(1, 0);
    let y = x.rotate_degree(90);

    assert_eq!(y, Vector::new(0, 1));
    assert_eq!(x.rotate_degree_around(90, &origin), Vector::new(2, 1));
    assert_eq!(x.rotate_degree(180), Vector::new(-1, 0));
    assert_eq!(x.rotate_degree(-90), Vector::new(0, -1));
    assert_eq!(
        Vector::new(3, 4).rotate_degree_around(180, &Vector::new(1, 1)),
        Vector::new(-1, -2)
    );
    assert_eq!(
        Vector::new(i64::MAX, -i64::MAX).rotate_degree(270),
        Vector::new(-i64::MAX, -i64::MAX)
    );
}
