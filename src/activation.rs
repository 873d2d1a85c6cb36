use vstd::prelude::*;

use crate::scalar::{one, zero, Scalar};

verus! {

/// The slope that Leaky ReLU keeps for negative arguments: one hundredth.
pub open spec fn leak<W: Scalar>() -> W {
    W::spec_divided(W::spec_of_count(1), W::spec_of_count(100))
}

fn leak_exec<W: Scalar>() -> (r: W)
    ensures
        r == leak::<W>(),
{
    W::from_count(1).divided(W::from_count(100))
}

/// The closed set of activation functions a layer can apply.
#[derive(Clone, Copy, Debug)]
pub enum ActivationFunctionType {
    Identity,
    Sigmoid,
    Tanh,
    ReLU,
    LeakyReLU,
    GCU,
    Gaussian,
    Swish,
    Ameo,
}

impl ActivationFunctionType {
    /// What the activation function gives for the pre-activation value `x`.
    pub open spec fn output_spec<W: Scalar>(self, x: W) -> W {
        match self {
            ActivationFunctionType::Identity => x,
            ActivationFunctionType::Sigmoid => W::spec_sigmoid(x),
            ActivationFunctionType::Tanh => W::spec_tanh(x),
            ActivationFunctionType::ReLU => if W::spec_less_than(zero(), x) {
                x
            } else {
                zero()
            },
            ActivationFunctionType::LeakyReLU => if W::spec_less_than(x, zero()) {
                W::spec_times(leak(), x)
            } else {
                x
            },
            ActivationFunctionType::GCU => W::spec_times(x, W::spec_cos(x)),
            ActivationFunctionType::Gaussian => W::spec_exp(W::spec_times(W::spec_negated(x), x)),
            ActivationFunctionType::Swish => W::spec_divided(
                x,
                W::spec_plus(one(), W::spec_exp(W::spec_negated(x))),
            ),
            ActivationFunctionType::Ameo => if W::spec_at_most(zero(), x) {
                W::spec_times(x, W::spec_cos(x))
            } else {
                W::spec_tanh(x)
            },
        }
    }

    /// The derivative of the activation function at the pre-activation value `x`.
    pub open spec fn derivative_spec<W: Scalar>(self, x: W) -> W {
        match self {
            ActivationFunctionType::Identity => one(),
            ActivationFunctionType::Sigmoid => {
                let y = W::spec_sigmoid(x);
                W::spec_times(y, W::spec_minus(one(), y))
            },
            ActivationFunctionType::Tanh => {
                let t = W::spec_tanh(x);
                W::spec_minus(one(), W::spec_times(t, t))
            },
            ActivationFunctionType::ReLU => if W::spec_less_than(zero(), x) {
                one()
            } else {
                zero()
            },
            ActivationFunctionType::LeakyReLU => if W::spec_less_than(x, zero()) {
                leak()
            } else {
                one()
            },
            ActivationFunctionType::GCU => W::spec_minus(
                W::spec_cos(x),
                W::spec_times(x, W::spec_sin(x)),
            ),
            ActivationFunctionType::Gaussian => W::spec_times(
                W::spec_times(W::spec_negated(W::spec_of_count(2)), x),
                W::spec_exp(W::spec_times(W::spec_negated(x), x)),
            ),
            ActivationFunctionType::Swish => {
                let e = W::spec_exp(W::spec_negated(x));
                let d = W::spec_plus(one(), e);
                W::spec_divided(W::spec_plus(W::spec_plus(one(), e), W::spec_times(x, e)), W::spec_times(d, d))
            },
            ActivationFunctionType::Ameo => if W::spec_at_most(zero(), x) {
                W::spec_minus(W::spec_cos(x), W::spec_times(x, W::spec_sin(x)))
            } else {
                let t = W::spec_tanh(x);
                W::spec_minus(one(), W::spec_times(t, t))
            },
        }
    }

    pub fn get_output<W: Scalar>(&self, x: W) -> (r: W)
        ensures
            r == self.output_spec(x),
    {
        match self {
            ActivationFunctionType::Identity => Identity.get_output(x),
            ActivationFunctionType::Sigmoid => Sigmoid.get_output(x),
            ActivationFunctionType::Tanh => Tanh.get_output(x),
            ActivationFunctionType::ReLU => ReLU.get_output(x),
            ActivationFunctionType::LeakyReLU => LeakyReLU.get_output(x),
            ActivationFunctionType::GCU => GrowingCosineUnit.get_output(x),
            ActivationFunctionType::Gaussian => Gaussian.get_output(x),
            ActivationFunctionType::Swish => Swish.get_output(x),
            ActivationFunctionType::Ameo => Ameo.get_output(x),
        }
    }

    pub fn derivative<W: Scalar>(&self, x: W) -> (r: W)
        ensures
            r == self.derivative_spec(x),
    {
        match self {
            ActivationFunctionType::Identity => Identity.derivative(x),
            ActivationFunctionType::Sigmoid => Sigmoid.derivative(x),
            ActivationFunctionType::Tanh => Tanh.derivative(x),
            ActivationFunctionType::ReLU => ReLU.derivative(x),
            ActivationFunctionType::LeakyReLU => LeakyReLU.derivative(x),
            ActivationFunctionType::GCU => GrowingCosineUnit.derivative(x),
            ActivationFunctionType::Gaussian => Gaussian.derivative(x),
            ActivationFunctionType::Swish => Swish.derivative(x),
            ActivationFunctionType::Ameo => Ameo.derivative(x),
        }
    }

    /// Writes the activation of every element of `src` into `dst`.
    pub fn apply_batch<W: Scalar>(&self, dst: &mut Vec<W>, src: &[W])
        requires
            old(dst)@.len() == src@.len(),
        ensures
            final(dst)@ == Seq::new(src@.len(), |i: int| self.output_spec(src@[i])),
    {
        let n = src.len();
        for i in 0..n
            invariant
                n == src@.len(),
                dst@.len() == n,
                forall|j: int| 0 <= j < i ==> dst@[j] == self.output_spec(src@[j]),
        {
            dst[i] = self.get_output(src[i]);
        }
        assert(dst@ =~= Seq::new(src@.len(), |i: int| self.output_spec(src@[i])));
    }

    /// Writes `errors[i] * derivative(outputs_before_activation[i])` into `dst[i]`.
    pub fn apply_derivative_batch<W: Scalar>(
        &self,
        dst: &mut Vec<W>,
        errors: &[W],
        outputs_before_activation: &[W],
    )
        requires
            old(dst)@.len() == errors@.len(),
            errors@.len() == outputs_before_activation@.len(),
        ensures
            final(dst)@ == Seq::new(
                errors@.len(),
                |i: int| W::spec_times(errors@[i], self.derivative_spec(outputs_before_activation@[i])),
            ),
    {
        let n = errors.len();
        for i in 0..n
            invariant
                n == errors@.len(),
                n == outputs_before_activation@.len(),
                dst@.len() == n,
                forall|j: int|
                    0 <= j < i ==> dst@[j] == W::spec_times(
                        errors@[j],
                        self.derivative_spec(outputs_before_activation@[j]),
                    ),
        {
            let d = self.derivative(outputs_before_activation[i]);
            dst[i] = errors[i].times(d);
        }
        assert(dst@ =~= Seq::new(
            errors@.len(),
            |i: int| W::spec_times(errors@[i], self.derivative_spec(outputs_before_activation@[i])),
        ));
    }
}

/// The logistic function, `1 / (1 + e^-x)`.
pub struct Sigmoid;

impl Sigmoid {
    pub fn get_output<W: Scalar>(&self, x: W) -> (r: W)
        ensures
            r == ActivationFunctionType::Sigmoid.output_spec(x),
    {
        x.sigmoid()
    }

    /// Computed from the function's own output: `y * (1 - y)`.
    pub fn derivative<W: Scalar>(&self, x: W) -> (r: W)
        ensures
            r == ActivationFunctionType::Sigmoid.derivative_spec(x),
    {
        let y = self.get_output(x);
        y.times(W::from_count(1).minus(y))
    }
}

/// The hyperbolic tangent.
pub struct Tanh;

impl Tanh {
    pub fn get_output<W: Scalar>(&self, x: W) -> (r: W)
        ensures
            r == ActivationFunctionType::Tanh.output_spec(x),
    {
        x.tanh()
    }

    pub fn derivative<W: Scalar>(&self, x: W) -> (r: W)
        ensures
            r == ActivationFunctionType::Tanh.derivative_spec(x),
    {
        let t = x.tanh();
        W::from_count(1).minus(t.times(t))
    }
}

/// The identity: the pre-activation value passes unchanged.
pub struct Identity;

impl Identity {
    pub fn get_output<W: Scalar>(&self, x: W) -> (r: W)
        ensures
            r == ActivationFunctionType::Identity.output_spec(x),
    {
        x
    }

    pub fn derivative<W: Scalar>(&self, x: W) -> (r: W)
        ensures
            r == ActivationFunctionType::Identity.derivative_spec(x),
    {
        W::from_count(1)
    }
}

/// Rectified linear unit: `x` where `x > 0`, else zero.
pub struct ReLU;

impl ReLU {
    pub fn get_output<W: Scalar>(&self, x: W) -> (r: W)
        ensures
            r == ActivationFunctionType::ReLU.output_spec(x),
    {
        let z = W::from_count(0);
        if z.less_than(x) {
            x
        } else {
            z
        }
    }

    pub fn derivative<W: Scalar>(&self, x: W) -> (r: W)
        ensures
            r == ActivationFunctionType::ReLU.derivative_spec(x),
    {
        if W::from_count(0).less_than(x) {
            W::from_count(1)
        } else {
            W::from_count(0)
        }
    }
}

/// Leaky rectified linear unit: `x / 100` where `x < 0`, else `x`.
pub struct LeakyReLU;

impl LeakyReLU {
    pub fn get_output<W: Scalar>(&self, x: W) -> (r: W)
        ensures
            r == ActivationFunctionType::LeakyReLU.output_spec(x),
    {
        if x.less_than(W::from_count(0)) {
            leak_exec::<W>().times(x)
        } else {
            x
        }
    }

    pub fn derivative<W: Scalar>(&self, x: W) -> (r: W)
        ensures
            r == ActivationFunctionType::LeakyReLU.derivative_spec(x),
    {
        if x.less_than(W::from_count(0)) {
            leak_exec::<W>()
        } else {
            W::from_count(1)
        }
    }
}

/// Growing cosine unit: `x * cos(x)`.
pub struct GrowingCosineUnit;

impl GrowingCosineUnit {
    pub fn get_output<W: Scalar>(&self, x: W) -> (r: W)
        ensures
            r == ActivationFunctionType::GCU.output_spec(x),
    {
        x.times(x.cos())
    }

    pub fn derivative<W: Scalar>(&self, x: W) -> (r: W)
        ensures
            r == ActivationFunctionType::GCU.derivative_spec(x),
    {
        x.cos().minus(x.times(x.sin()))
    }
}

/// Gaussian bump: `e^(-x * x)`.
pub struct Gaussian;

impl Gaussian {
    pub fn get_output<W: Scalar>(&self, x: W) -> (r: W)
        ensures
            r == ActivationFunctionType::Gaussian.output_spec(x),
    {
        x.negated().times(x).exp()
    }

    pub fn derivative<W: Scalar>(&self, x: W) -> (r: W)
        ensures
            r == ActivationFunctionType::Gaussian.derivative_spec(x),
    {
        let e = x.negated().times(x).exp();
        W::from_count(2).negated().times(x).times(e)
    }
}

/// Swish: `x / (1 + e^-x)`.
pub struct Swish;

impl Swish {
    pub fn get_output<W: Scalar>(&self, x: W) -> (r: W)
        ensures
            r == ActivationFunctionType::Swish.output_spec(x),
    {
        x.divided(W::from_count(1).plus(x.negated().exp()))
    }

    pub fn derivative<W: Scalar>(&self, x: W) -> (r: W)
        ensures
            r == ActivationFunctionType::Swish.derivative_spec(x),
    {
        let one = W::from_count(1);
        let e = x.negated().exp();
        let d = one.plus(e);
        one.plus(e).plus(x.times(e)).divided(d.times(d))
    }
}

/// The growing cosine unit for `x >= 0`, the hyperbolic tangent below.
pub struct Ameo;

impl Ameo {
    pub fn get_output<W: Scalar>(&self, x: W) -> (r: W)
        ensures
            r == ActivationFunctionType::Ameo.output_spec(x),
    {
        if W::from_count(0).at_most(x) {
            GrowingCosineUnit.get_output(x)
        } else {
            Tanh.get_output(x)
        }
    }

    pub fn derivative<W: Scalar>(&self, x: W) -> (r: W)
        ensures
            r == ActivationFunctionType::Ameo.derivative_spec(x),
    {
        if W::from_count(0).at_most(x) {
            GrowingCosineUnit.derivative(x)
        } else {
            Tanh.derivative(x)
        }
    }
}

} // verus!
