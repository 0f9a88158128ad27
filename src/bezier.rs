use vstd::prelude::*;

verus! {

/// A cubic Bezier curve given by its four control values.
pub struct Bezier<T>(pub T, pub T, pub T, pub T);

impl<T: Copy> Bezier<T> {
    /// The value at parameter `t` by de Casteljau's construction: `mix(a, b, t)`
    /// interpolates between two values, and is applied to the control values,
    /// then to the three results, then to the two results of that.
    pub fn value_at<P: Copy, F: Fn(T, T, P) -> T>(&self, t: P, mix: F) -> (r: T)
        requires
            forall|a: T, b: T| mix.requires((a, b, t)),
        ensures
            exists|v01: T, v12: T, v23: T, n1: T, n2: T|
                {
                    &&& mix.ensures((self.0, self.1, t), v01)
                    &&& mix.ensures((self.1, self.2, t), v12)
                    &&& mix.ensures((self.2, self.3, t), v23)
                    &&& mix.ensures((v01, v12, t), n1)
                    &&& mix.ensures((v12, v23, t), n2)
                    &&& mix.ensures((n1, n2, t), r)
                },
    {
        let v01 = mix(self.0, self.1, t);
        let v12 = mix(self.1, self.2, t);
        let v23 = mix(self.2, self.3, t);
        let n1 = mix(v01, v12, t);
        let n2 = mix(v12, v23, t);
        mix(n1, n2, t)
    }

    /// The tangent at parameter `t` up to scale: `difference(n2, n1)` of the
    /// two values `n1`, `n2` on the second level of de Casteljau's construction.
    pub fn direction_at<P: Copy, D, F: Fn(T, T, P) -> T, S: Fn(T, T) -> D>(
        &self,
        t: P,
        mix: F,
        difference: S,
    ) -> (r: D)
        requires
            forall|a: T, b: T| mix.requires((a, b, t)),
            forall|a: T, b: T| difference.requires((a, b)),
        ensures
            exists|v01: T, v12: T, v23: T, n1: T, n2: T|
                {
                    &&& mix.ensures((self.0, self.1, t), v01)
                    &&& mix.ensures((self.1, self.2, t), v12)
                    &&& mix.ensures((self.2, self.3, t), v23)
                    &&& mix.ensures((v01, v12, t), n1)
                    &&& mix.ensures((v12, v23, t), n2)
                    &&& difference.ensures((n2, n1), r)
                },
    {
        let v01 = mix(self.0, self.1, t);
        let v12 = mix(self.1, self.2, t);
        let v23 = mix(self.2, self.3, t);
        let n1 = mix(v01, v12, t);
        let n2 = mix(v12, v23, t);
        difference(n2, n1)
    }
}

} // verus!
