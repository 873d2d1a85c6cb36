use vstd::prelude::*;

use crate::scalar::Scalar;

verus! {

/// The cost functions an output layer can use. Each takes the signed error
/// `expected - actual`.
#[derive(Clone, Copy, Debug)]
pub enum CostFunctionType<W: Scalar> {
    MeanSquaredError,
    MeanSquaredErrorMultiplied(W),
}

impl<W: Scalar> CostFunctionType<W> {
    pub open spec fn cost_spec(self, error: W) -> W {
        match self {
            CostFunctionType::MeanSquaredError => W::spec_times(error, error),
            CostFunctionType::MeanSquaredErrorMultiplied(scale) => W::spec_times(
                W::spec_times(error, error),
                scale,
            ),
        }
    }

    pub open spec fn derivative_spec(self, error: W) -> W {
        match self {
            CostFunctionType::MeanSquaredError => W::spec_times(error, W::spec_of_count(2)),
            CostFunctionType::MeanSquaredErrorMultiplied(scale) => W::spec_times(error, scale),
        }
    }

    pub fn get_cost(&self, error: W) -> (r: W)
        ensures
            r == self.cost_spec(error),
    {
        match self {
            CostFunctionType::MeanSquaredError => MeanSquaredError.get_cost(error),
            CostFunctionType::MeanSquaredErrorMultiplied(scale) => MeanSquaredErrorMultiplied(
                *scale,
            ).get_cost(error),
        }
    }

    pub fn derivative(&self, error: W) -> (r: W)
        ensures
            r == self.derivative_spec(error),
    {
        match self {
            CostFunctionType::MeanSquaredError => MeanSquaredError.derivative(error),
            CostFunctionType::MeanSquaredErrorMultiplied(scale) => MeanSquaredErrorMultiplied(
                *scale,
            ).derivative(error),
        }
    }
}

/// The squared error, `e * e`, with derivative `2e`.
pub struct MeanSquaredError;

impl MeanSquaredError {
    pub fn get_cost<W: Scalar>(&self, error: W) -> (r: W)
        ensures
            r == CostFunctionType::<W>::MeanSquaredError.cost_spec(error),
    {
        error.times(error)
    }

    pub fn derivative<W: Scalar>(&self, error: W) -> (r: W)
        ensures
            r == CostFunctionType::<W>::MeanSquaredError.derivative_spec(error),
    {
        error.times(W::from_count(2))
    }
}

/// The squared error scaled by a constant, `e * e * scale`, with derivative `e * scale`.
pub struct MeanSquaredErrorMultiplied<W: Scalar>(pub W);

impl<W: Scalar> MeanSquaredErrorMultiplied<W> {
    pub fn get_cost(&self, error: W) -> (r: W)
        ensures
            r == CostFunctionType::MeanSquaredErrorMultiplied(self.0).cost_spec(error),
    {
        error.times(error).times(self.0)
    }

    pub fn derivative(&self, error: W) -> (r: W)
        ensures
            r == CostFunctionType::MeanSquaredErrorMultiplied(self.0).derivative_spec(error),
    {
        error.times(self.0)
    }
}

} // verus!
