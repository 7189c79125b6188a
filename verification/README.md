# spx_vix_calibration

Joint calibration of a neural stochastic volatility model to SPX implied
volatilities and VIX futures and options.

- `src/` is the verified library: the polynomial basis of the VIX regression
  (column layout, size, partial derivatives of its monomials) and the indices a
  calibration step reads on a simulated path.
- `app/` is the training program: Black-Scholes pricing, the neural network,
  Euler simulation, QR least squares and the loss, all floating-point code
  built on candle, ndarray, statrs, rand and rayon.
